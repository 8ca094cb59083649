//! Reading a statement out of a report's HTML. The `scraper` crate parses the
//! document and finds the elements; which elements are asked for, which table
//! is read and what becomes of each row is decided here.
//!
//! A parsed document and its elements are values of `scraper`'s own types.
//! What `scraper` returns for them is a function of the document's text, and is
//! given a name here, so that the extractor's result is stated in full over
//! the text it was handed.

use crate::statement::{RowView, StatementData, StatementView, TableRow};
use crate::filing_index::strings_view;
use vstd::prelude::*;

verus! {

#[verifier::external_type_specification]
#[verifier::external_body]
pub struct ExHtml(scraper::Html);

#[verifier::external_type_specification]
#[verifier::external_body]
pub struct ExSelector(scraper::Selector);

#[verifier::external_type_specification]
#[verifier::external_body]
pub struct ExElementRef<'a>(scraper::ElementRef<'a>);

/// The document that `scraper::Html::parse_document` makes of a text.
pub uninterp spec fn html_document(html: Seq<char>) -> scraper::Html;

/// The selector that `scraper::Selector::parse` makes of a text, if it makes
/// one.
pub uninterp spec fn css_selector(css: Seq<char>) -> Option<scraper::Selector>;

/// The elements of a document that match a selector, in the order in which
/// `scraper::Html::select` yields them.
pub uninterp spec fn document_matches(
    document: scraper::Html,
    selector: scraper::Selector,
) -> Seq<scraper::ElementRef<'static>>;

/// The elements below an element that match a selector, in the order in which
/// `scraper::ElementRef::select` yields them.
pub uninterp spec fn element_matches(
    element: scraper::ElementRef<'static>,
    selector: scraper::Selector,
) -> Seq<scraper::ElementRef<'static>>;

/// The text nodes below an element, in the order in which
/// `scraper::ElementRef::text` yields them.
pub uninterp spec fn element_text(element: scraper::ElementRef<'static>) -> Seq<Seq<char>>;

/// `scraper::Html::parse_document`: parses a text as an HTML document. It
/// does not fail: a text that is not well formed gives the document that the
/// HTML parsing rules recover from it.
#[verifier::external_body]
fn parse_document(html: &str) -> (document: scraper::Html)
    ensures
        document == html_document(html@),
{
    scraper::Html::parse_document(html)
}

/// `scraper::Selector::parse`: parses a group of CSS selectors, or fails.
#[verifier::external_body]
fn parse_selector(css: &str) -> (selector: Option<scraper::Selector>)
    ensures
        selector == css_selector(css@),
{
    scraper::Selector::parse(css).ok()
}

/// `scraper::Html::select`: the matching elements of the document, collected
/// in the order in which the iterator yields them.
#[verifier::external_body]
fn select_in_document<'a>(document: &'a scraper::Html, selector: &scraper::Selector) -> (found:
    Vec<scraper::ElementRef<'a>>)
    ensures
        found@ == document_matches(*document, *selector),
{
    document.select(selector).collect()
}

/// `scraper::ElementRef::select`: the matching elements below an element,
/// collected in the order in which the iterator yields them.
#[verifier::external_body]
fn select_in_element<'a>(element: &scraper::ElementRef<'a>, selector: &scraper::Selector) -> (found:
    Vec<scraper::ElementRef<'a>>)
    ensures
        found@ == element_matches(*element, *selector),
{
    element.select(selector).collect()
}

/// `scraper::ElementRef::text`: the text nodes below an element, each as a
/// string of its own, in the order in which the iterator yields them.
#[verifier::external_body]
fn text_nodes<'a>(element: &scraper::ElementRef<'a>) -> (nodes: Vec<String>)
    ensures
        strings_view(nodes@) == element_text(*element),
{
    element.text().map(String::from).collect()
}

/// The selectors that the extractor asks with.
pub struct TableSelectors {
    pub table: scraper::Selector,
    pub row: scraper::Selector,
    pub header_cell: scraper::Selector,
    pub data_cell: scraper::Selector,
    pub emphasis: scraper::Selector,
}

impl TableSelectors {
    /// The selectors for `table`, `tr`, `th`, `td` and `strong`, if each of
    /// them is a selector.
    pub open spec fn parsed() -> Option<TableSelectors> {
        if css_selector("table"@) is Some && css_selector("tr"@) is Some && css_selector("th"@)
            is Some && css_selector("td"@) is Some && css_selector("strong"@) is Some {
            Some(
                TableSelectors {
                    table: css_selector("table"@)->0,
                    row: css_selector("tr"@)->0,
                    header_cell: css_selector("th"@)->0,
                    data_cell: css_selector("td"@)->0,
                    emphasis: css_selector("strong"@)->0,
                },
            )
        } else {
            None
        }
    }

    /// The texts of the cells that a selector finds in a row.
    pub open spec fn cells(
        row: scraper::ElementRef<'static>,
        selector: scraper::Selector,
    ) -> Seq<Seq<Seq<char>>> {
        element_matches(row, selector).map_values(
            |cell: scraper::ElementRef<'static>| element_text(cell),
        )
    }

    /// What is read of one row.
    pub open spec fn row_of(self, row: scraper::ElementRef<'static>) -> RowView {
        RowView {
            header_cells: Self::cells(row, self.header_cell),
            data_cells: Self::cells(row, self.data_cell),
            emphasized: element_matches(row, self.emphasis).len(),
        }
    }

    /// The rows of the first table of a document, in order; nothing if the
    /// document has no table.
    pub open spec fn rows_of(self, document: scraper::Html) -> Option<Seq<RowView>> {
        let tables = document_matches(document, self.table);
        if tables.len() == 0 {
            None
        } else {
            Some(
                element_matches(tables[0], self.row).map_values(
                    |row: scraper::ElementRef<'static>| self.row_of(row),
                ),
            )
        }
    }

    /// The selectors for `table`, `tr`, `th`, `td` and `strong`.
    pub fn new() -> (selectors: Option<TableSelectors>)
        ensures
            selectors == TableSelectors::parsed(),
    {
        let table = parse_selector("table");
        let row = parse_selector("tr");
        let header_cell = parse_selector("th");
        let data_cell = parse_selector("td");
        let emphasis = parse_selector("strong");
        match (table, row, header_cell, data_cell, emphasis) {
            (Some(table), Some(row), Some(header_cell), Some(data_cell), Some(emphasis)) => Some(
                TableSelectors { table, row, header_cell, data_cell, emphasis },
            ),
            _ => None,
        }
    }

    fn read_cells<'a>(row: &scraper::ElementRef<'a>, selector: &scraper::Selector) -> (cells: Vec<
        Vec<String>,
    >)
        ensures
            crate::statement::grid_view(cells@) == Self::cells(*row, *selector),
    {
        let found = select_in_element(row, selector);
        let mut cells: Vec<Vec<String>> = Vec::new();
        let mut k: usize = 0;
        while k < found.len()
            invariant
                k <= found.len(),
                found@ == element_matches(*row, *selector),
                crate::statement::grid_view(cells@) == Self::cells(*row, *selector).take(k as int),
            decreases found.len() - k,
        {
            let ghost before = crate::statement::grid_view(cells@);
            let nodes = text_nodes(&found[k]);
            cells.push(nodes);
            assert(crate::statement::grid_view(cells@) == before.push(strings_view(nodes@)));
            assert(Self::cells(*row, *selector).take(k + 1) == Self::cells(*row, *selector).take(
                k as int,
            ).push(element_text(found@[k as int])));
            k += 1;
        }
        assert(Self::cells(*row, *selector).take(k as int) == Self::cells(*row, *selector));
        cells
    }

    fn read_row<'a>(&self, row: &scraper::ElementRef<'a>) -> (read: TableRow)
        ensures
            read@ == self.row_of(*row),
    {
        let header_cells = Self::read_cells(row, &self.header_cell);
        let data_cells = Self::read_cells(row, &self.data_cell);
        let emphasized = select_in_element(row, &self.emphasis).len();
        TableRow { header_cells, data_cells, emphasized }
    }

    /// Reads the rows of the first table of a parsed document.
    fn read_rows(&self, document: &scraper::Html) -> (rows: Option<Vec<TableRow>>)
        ensures
            match rows {
                Some(read) => self.rows_of(*document) == Some(crate::statement::rows_view(read@)),
                None => self.rows_of(*document) is None,
            },
    {
        let tables = select_in_document(document, &self.table);
        if tables.len() == 0 {
            return None;
        }
        let found = select_in_element(&tables[0], &self.row);
        let ghost all = self.rows_of(*document)->0;
        let mut rows: Vec<TableRow> = Vec::new();
        let mut k: usize = 0;
        while k < found.len()
            invariant
                k <= found.len(),
                all == found@.map_values(|row: scraper::ElementRef<'static>| self.row_of(row)),
                crate::statement::rows_view(rows@) == all.take(k as int),
            decreases found.len() - k,
        {
            let ghost before = crate::statement::rows_view(rows@);
            let read = self.read_row(&found[k]);
            rows.push(read);
            assert(crate::statement::rows_view(rows@) == before.push(read@));
            assert(all.take(k + 1) == all.take(k as int).push(self.row_of(found@[k as int])));
            k += 1;
        }
        assert(all.take(k as int) == all);
        Some(rows)
    }
}

/// The statement that a document's text holds: that of the rows of its first
/// table, and the empty statement if it has no table.
pub open spec fn statement_in(html: Seq<char>) -> StatementView {
    match TableSelectors::parsed() {
        Some(selectors) => match selectors.rows_of(html_document(html)) {
            Some(rows) => StatementView::of_rows(rows),
            None => StatementView::empty(),
        },
        None => StatementView::empty(),
    }
}

/// The rows of the first table of an HTML document, as the extractor reads
/// them; nothing if the document has no table.
pub fn table_rows(html: &str) -> (rows: Option<Vec<TableRow>>)
    ensures
        match rows {
            Some(read) => TableSelectors::parsed() matches Some(selectors) && selectors.rows_of(
                html_document(html@),
            ) == Some(crate::statement::rows_view(read@)),
            None => TableSelectors::parsed() matches Some(selectors) ==> selectors.rows_of(
                html_document(html@),
            ) is None,
        },
{
    match TableSelectors::new() {
        Some(selectors) => {
            let document = parse_document(html);
            selectors.read_rows(&document)
        },
        None => None,
    }
}

/// Reads the statement out of a report's HTML. Only the first table of the
/// document is read. Each of its rows goes by its shape to the headers, the
/// sections or the data; a row of no known shape is passed over. A document
/// without a table gives the empty statement.
pub fn parse_html_statement_data(html: &str) -> (statement: StatementData)
    ensures
        statement@ == statement_in(html@),
{
    match table_rows(html) {
        Some(rows) => StatementData::from_rows(&rows),
        None => StatementData::new(),
    }
}

} // verus!
