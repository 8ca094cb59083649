//! A financial statement as a table: header rows, section labels and data
//! rows, told apart by the shape of each table row.

use crate::filing_index::strings_view;
use crate::text::{chars_of, join, join_with, pieces, string_of, trim, trimmed};
use vstd::prelude::*;

verus! {

/// A statement: the cells of each header row, the label of each section row
/// and the cells of each data row, each list in the table's order. Rows need
/// not be of one length.
#[derive(Clone, Debug, PartialEq, Eq)]
pub struct StatementData {
    pub headers: Vec<Vec<String>>,
    pub sections: Vec<String>,
    pub data: Vec<Vec<String>>,
}

/// What the extractor reads of one table row: the text nodes of each header
/// cell, the text nodes of each data cell, and how many emphasised parts the
/// row holds.
#[derive(Clone, Debug, PartialEq, Eq)]
pub struct TableRow {
    pub header_cells: Vec<Vec<String>>,
    pub data_cells: Vec<Vec<String>>,
    pub emphasized: usize,
}

/// The shapes of a table row.
#[derive(Clone, Copy, Debug, PartialEq, Eq, Structural)]
pub enum RowKind {
    /// The row has header cells.
    Header,
    /// The row has data cells and something emphasised: it opens a section.
    Section,
    /// The row has data cells and nothing emphasised.
    Data,
    /// The row has no cells at all.
    Unrecognized,
}

/// A statement as sequences of texts.
pub struct StatementView {
    pub headers: Seq<Seq<Seq<char>>>,
    pub sections: Seq<Seq<char>>,
    pub data: Seq<Seq<Seq<char>>>,
}

/// A table row as sequences of texts.
pub struct RowView {
    pub header_cells: Seq<Seq<Seq<char>>>,
    pub data_cells: Seq<Seq<Seq<char>>>,
    pub emphasized: nat,
}

/// The views of a list of lists of strings.
pub open spec fn grid_view(rows: Seq<Vec<String>>) -> Seq<Seq<Seq<char>>> {
    rows.map_values(|row: Vec<String>| strings_view(row@))
}

/// The views of a list of table rows.
pub open spec fn rows_view(rows: Seq<TableRow>) -> Seq<RowView> {
    rows.map_values(|row: TableRow| row@)
}

impl View for StatementData {
    type V = StatementView;

    open spec fn view(&self) -> StatementView {
        StatementView {
            headers: grid_view(self.headers@),
            sections: strings_view(self.sections@),
            data: grid_view(self.data@),
        }
    }
}

impl View for TableRow {
    type V = RowView;

    open spec fn view(&self) -> RowView {
        RowView {
            header_cells: grid_view(self.header_cells@),
            data_cells: grid_view(self.data_cells@),
            emphasized: self.emphasized as nat,
        }
    }
}

/// The text of a cell: its text nodes joined by single spaces, without white
/// space at either end.
pub open spec fn cell_text_of(nodes: Seq<Seq<char>>) -> Seq<char> {
    trimmed(join(nodes, ' '))
}

/// The texts of the cells of a row.
pub open spec fn cell_texts_of(cells: Seq<Seq<Seq<char>>>) -> Seq<Seq<char>> {
    cells.map_values(|nodes: Seq<Seq<char>>| cell_text_of(nodes))
}

impl RowView {
    /// The shape of the row. Header cells decide first; then data cells make
    /// the row a section label if anything in it is emphasised, else a data
    /// row.
    pub open spec fn kind(self) -> RowKind {
        if self.header_cells.len() > 0 {
            RowKind::Header
        } else if self.data_cells.len() == 0 {
            RowKind::Unrecognized
        } else if self.emphasized > 0 {
            RowKind::Section
        } else {
            RowKind::Data
        }
    }
}

impl StatementView {
    /// The statement without rows.
    pub open spec fn empty() -> StatementView {
        StatementView { headers: Seq::empty(), sections: Seq::empty(), data: Seq::empty() }
    }

    /// The statement after one more table row. A header row adds the texts of
    /// its header cells to the headers, a section row the text of its first
    /// cell to the sections, a data row the texts of its cells to the data. A
    /// row of no known shape adds nothing.
    pub open spec fn with_row(self, row: RowView) -> StatementView {
        match row.kind() {
            RowKind::Header => StatementView {
                headers: self.headers.push(cell_texts_of(row.header_cells)),
                ..self
            },
            RowKind::Section => StatementView {
                sections: self.sections.push(cell_text_of(row.data_cells[0])),
                ..self
            },
            RowKind::Data => StatementView {
                data: self.data.push(cell_texts_of(row.data_cells)),
                ..self
            },
            RowKind::Unrecognized => self,
        }
    }

    /// The statement that a table's rows give, taken in order.
    pub open spec fn of_rows(rows: Seq<RowView>) -> StatementView
        decreases rows.len(),
    {
        if rows.len() == 0 {
            StatementView::empty()
        } else {
            StatementView::of_rows(rows.drop_last()).with_row(rows.last())
        }
    }
}

/// The text of a cell, from its text nodes.
pub fn cell_text(nodes: &Vec<String>) -> (text: String)
    ensures
        text@ == cell_text_of(strings_view(nodes@)),
{
    let mut parts: Vec<Vec<char>> = Vec::new();
    let mut k: usize = 0;
    while k < nodes.len()
        invariant
            k <= nodes.len(),
            pieces(parts@) == strings_view(nodes@).take(k as int),
        decreases nodes.len() - k,
    {
        let ghost before = pieces(parts@);
        parts.push(chars_of(nodes[k].as_str()));
        assert(pieces(parts@) == before.push(nodes@[k as int]@));
        assert(strings_view(nodes@).take(k + 1) == strings_view(nodes@).take(k as int).push(
            nodes@[k as int]@,
        ));
        k += 1;
    }
    assert(strings_view(nodes@).take(k as int) == strings_view(nodes@));
    string_of(&trim(&join_with(&parts, ' ')))
}

/// The texts of the cells of a row.
pub fn cell_texts(cells: &Vec<Vec<String>>) -> (texts: Vec<String>)
    ensures
        strings_view(texts@) == cell_texts_of(grid_view(cells@)),
{
    let mut texts: Vec<String> = Vec::new();
    let mut k: usize = 0;
    while k < cells.len()
        invariant
            k <= cells.len(),
            strings_view(texts@) == cell_texts_of(grid_view(cells@)).take(k as int),
        decreases cells.len() - k,
    {
        let ghost before = strings_view(texts@);
        let text = cell_text(&cells[k]);
        texts.push(text);
        assert(strings_view(texts@) == before.push(text@));
        assert(cell_texts_of(grid_view(cells@)).take(k + 1) == cell_texts_of(
            grid_view(cells@),
        ).take(k as int).push(cell_text_of(strings_view(cells@[k as int]@))));
        k += 1;
    }
    assert(cell_texts_of(grid_view(cells@)).take(k as int) == cell_texts_of(grid_view(cells@)));
    texts
}

impl TableRow {
    /// The shape of the row.
    pub fn kind(&self) -> (kind: RowKind)
        ensures
            kind == self@.kind(),
    {
        if self.header_cells.len() > 0 {
            RowKind::Header
        } else if self.data_cells.len() == 0 {
            RowKind::Unrecognized
        } else if self.emphasized > 0 {
            RowKind::Section
        } else {
            RowKind::Data
        }
    }
}

impl StatementData {
    /// A statement without rows.
    pub fn new() -> (statement: StatementData)
        ensures
            statement@ == StatementView::empty(),
    {
        let statement = StatementData { headers: Vec::new(), sections: Vec::new(), data: Vec::new() };
        assert(statement@.headers == Seq::<Seq<Seq<char>>>::empty());
        assert(statement@.sections == Seq::<Seq<char>>::empty());
        assert(statement@.data == Seq::<Seq<Seq<char>>>::empty());
        statement
    }

    /// Takes one more table row into the statement, by its shape.
    pub fn push_row(&mut self, row: &TableRow)
        ensures
            final(self)@ == old(self)@.with_row(row@),
    {
        match row.kind() {
            RowKind::Header => {
                let texts = cell_texts(&row.header_cells);
                self.headers.push(texts);
                assert(grid_view(self.headers@) == grid_view(old(self).headers@).push(
                    strings_view(texts@),
                ));
            },
            RowKind::Section => {
                let text = cell_text(&row.data_cells[0]);
                self.sections.push(text);
                assert(strings_view(self.sections@) == strings_view(old(self).sections@).push(
                    text@,
                ));
            },
            RowKind::Data => {
                let texts = cell_texts(&row.data_cells);
                self.data.push(texts);
                assert(grid_view(self.data@) == grid_view(old(self).data@).push(
                    strings_view(texts@),
                ));
            },
            RowKind::Unrecognized => {},
        }
    }

    /// The statement that a table's rows give, taken in order.
    pub fn from_rows(rows: &Vec<TableRow>) -> (statement: StatementData)
        ensures
            statement@ == StatementView::of_rows(rows_view(rows@)),
    {
        let mut statement = StatementData::new();
        let mut k: usize = 0;
        while k < rows.len()
            invariant
                k <= rows.len(),
                statement@ == StatementView::of_rows(rows_view(rows@).take(k as int)),
            decreases rows.len() - k,
        {
            let ghost upto = rows_view(rows@).take(k + 1);
            assert(upto.drop_last() == rows_view(rows@).take(k as int));
            assert(upto.last() == rows@[k as int]@);
            statement.push_row(&rows[k]);
            k += 1;
        }
        assert(rows_view(rows@).take(k as int) == rows_view(rows@));
        statement
    }
}

/// Every row of a table goes to exactly one place: the headers, the sections
/// and the data hold as many entries together as the table has rows of a known
/// shape.
pub proof fn lemma_rows_accounted(rows: Seq<RowView>)
    ensures
        StatementView::of_rows(rows).headers.len() == rows.filter(
            |row: RowView| row.kind() == RowKind::Header,
        ).len(),
        StatementView::of_rows(rows).sections.len() == rows.filter(
            |row: RowView| row.kind() == RowKind::Section,
        ).len(),
        StatementView::of_rows(rows).data.len() == rows.filter(
            |row: RowView| row.kind() == RowKind::Data,
        ).len(),
    decreases rows.len(),
{
    reveal(Seq::filter);
    if rows.len() > 0 {
        lemma_rows_accounted(rows.drop_last());
    }
}

} // verus!
