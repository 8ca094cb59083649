//! The reports of a filing: what its summary manifest lists, where each
//! report's document lies, and which report is the balance sheet.

use crate::error::PipelineError;
use crate::filing_index::strings_view;
use crate::text::{
    append, chars_of, contains, ends_with, has_suffix, lowercase, occurs_in, replace_all, replaced,
    slice, string_of, to_lowercase,
};
use vstd::prelude::*;

verus! {

/// One `Report` element of a summary manifest, as it was read: each of its
/// three fields may be missing.
#[derive(Clone, Debug, PartialEq, Eq)]
pub struct Report {
    pub short_name: Option<String>,
    pub html_file_name: Option<String>,
    pub xml_file_name: Option<String>,
}

/// A report of a filing: its label and the address of its document.
#[derive(Clone, Debug, PartialEq, Eq)]
pub struct ReportDescriptor {
    pub short_name: String,
    pub document_url: String,
}

impl Report {
    /// The report's label; empty if it has none.
    pub open spec fn label(self) -> Seq<char> {
        match self.short_name {
            Some(name) => name@,
            None => Seq::<char>::empty(),
        }
    }

    /// The file that holds the report: the HTML file if there is one, else the
    /// XML file, else nothing.
    pub open spec fn file_name(self) -> Seq<char> {
        match self.html_file_name {
            Some(html) => html@,
            None => match self.xml_file_name {
                Some(xml) => xml@,
                None => Seq::<char>::empty(),
            },
        }
    }
}

/// The file name of a summary manifest.
pub open spec fn summary_name() -> Seq<char> {
    "FilingSummary.xml"@
}

/// The directory that a summary manifest lies in: its address without the
/// manifest's file name at the end. An address that does not end in that name
/// loses every occurrence of it instead.
pub open spec fn base_url(summary_url: Seq<char>) -> Seq<char> {
    if has_suffix(summary_url, summary_name()) {
        summary_url.take(summary_url.len() - summary_name().len())
    } else {
        replaced(summary_url, summary_name(), Seq::<char>::empty())
    }
}

/// The reports that count: all but the last, which stands for the filing
/// itself. A single report is kept.
pub open spec fn listed(reports: Seq<Report>) -> Seq<Report> {
    if reports.len() > 1 {
        reports.drop_last()
    } else {
        reports
    }
}

/// The default words by which a balance sheet is known.
pub open spec fn balance_sheet_keywords() -> Seq<Seq<char>> {
    seq!["balance sheets"@, "financial condition"@]
}

/// A label names the statement: in lower case it holds one of the keywords.
pub open spec fn names_statement(short_name: Seq<char>, keywords: Seq<Seq<char>>) -> bool {
    exists|k: int| 0 <= k < keywords.len() && occurs_in(lowercase(short_name), #[trigger] keywords[k])
}

/// Descriptor `at` is the first whose label names the statement.
pub open spec fn is_first_named(
    descriptors: Seq<ReportDescriptor>,
    keywords: Seq<Seq<char>>,
    at: int,
) -> bool {
    &&& 0 <= at < descriptors.len()
    &&& names_statement(descriptors[at].short_name@, keywords)
    &&& forall|j: int| 0 <= j < at ==> !names_statement((#[trigger] descriptors[j]).short_name@, keywords)
}

fn base_chars(summary_url: &str) -> (base: Vec<char>)
    ensures
        base@ == base_url(summary_url@),
{
    let url = chars_of(summary_url);
    let name = chars_of("FilingSummary.xml");
    if ends_with(&url, &name) {
        slice(&url, 0, url.len() - name.len())
    } else {
        let nothing: Vec<char> = Vec::new();
        replace_all(&url, &name, &nothing)
    }
}

/// The directory that a summary manifest lies in.
pub fn manifest_base(summary_url: &str) -> (base: String)
    ensures
        base@ == base_url(summary_url@),
{
    string_of(&base_chars(summary_url))
}

/// The reports of one summary manifest, in the manifest's order. Where the
/// manifest lists more than one report the last is left out. Each report's
/// document is the manifest's directory followed by the report's file name,
/// the HTML file before the XML file; a report without a file gets the
/// directory alone.
pub fn master_reports(summary_url: &str, reports: &Vec<Report>) -> (descriptors: Vec<
    ReportDescriptor,
>)
    ensures
        descriptors@.len() == listed(reports@).len(),
        reports@.len() > 1 ==> descriptors@.len() == reports@.len() - 1,
        forall|i: int|
            0 <= i < descriptors@.len() ==> (#[trigger] descriptors@[i]).short_name@
                == reports@[i].label(),
        forall|i: int|
            0 <= i < descriptors@.len() ==> (#[trigger] descriptors@[i]).document_url@ == base_url(
                summary_url@,
            ) + reports@[i].file_name(),
        forall|i: int|
            0 <= i < descriptors@.len() && reports@[i].html_file_name is Some ==> (
            #[trigger] descriptors@[i]).document_url@ == base_url(summary_url@)
                + reports@[i].html_file_name->0@,
{
    let base = base_chars(summary_url);
    let count: usize = if reports.len() > 1 {
        reports.len() - 1
    } else {
        reports.len()
    };
    let mut descriptors: Vec<ReportDescriptor> = Vec::new();
    let mut i: usize = 0;
    while i < count
        invariant
            i <= count <= reports.len(),
            base@ == base_url(summary_url@),
            descriptors@.len() == i,
            forall|j: int|
                0 <= j < i ==> (#[trigger] descriptors@[j]).short_name@ == reports@[j].label(),
            forall|j: int|
                0 <= j < i ==> (#[trigger] descriptors@[j]).document_url@ == base_url(summary_url@)
                    + reports@[j].file_name(),
        decreases count - i,
    {
        let report = &reports[i];
        let short_name = match &report.short_name {
            Some(name) => name.clone(),
            None => String::new(),
        };
        let mut url: Vec<char> = Vec::new();
        append(&mut url, &base);
        match &report.html_file_name {
            Some(html) => {
                append(&mut url, &chars_of(html.as_str()));
            },
            None => match &report.xml_file_name {
                Some(xml) => {
                    append(&mut url, &chars_of(xml.as_str()));
                },
                None => {
                    assert(url@ == base@ + Seq::<char>::empty());
                },
            },
        }
        descriptors.push(ReportDescriptor { short_name, document_url: string_of(&url) });
        i += 1;
    }
    descriptors
}

/// Whether a label names the statement that the keywords describe.
pub fn is_named(short_name: &str, keywords: &Vec<String>) -> (named: bool)
    ensures
        named == names_statement(short_name@, strings_view(keywords@)),
{
    let lower = to_lowercase(short_name);
    let hay = chars_of(lower.as_str());
    let mut k: usize = 0;
    while k < keywords.len()
        invariant
            k <= keywords.len(),
            hay@ == lowercase(short_name@),
            forall|j: int| 0 <= j < k ==> !occurs_in(hay@, #[trigger] strings_view(keywords@)[j]),
        decreases keywords.len() - k,
    {
        let needle = chars_of(keywords[k].as_str());
        if contains(&hay, &needle) {
            assert(occurs_in(lowercase(short_name@), strings_view(keywords@)[k as int]));
            return true;
        }
        k += 1;
    }
    false
}

/// The document of the first report whose label, in lower case, holds one of
/// the keywords. Without such a report there is nothing to return.
pub fn select_statement(descriptors: &Vec<ReportDescriptor>, keywords: &Vec<String>) -> (found:
    Result<String, PipelineError>)
    ensures
        match found {
            Ok(url) => exists|at: int|
                is_first_named(descriptors@, strings_view(keywords@), at) && url@
                    == descriptors@[at].document_url@,
            Err(error) => error == PipelineError::NotFound && forall|i: int|
                0 <= i < descriptors@.len() ==> !names_statement(
                    (#[trigger] descriptors@[i]).short_name@,
                    strings_view(keywords@),
                ),
        },
{
    let mut i: usize = 0;
    while i < descriptors.len()
        invariant
            i <= descriptors.len(),
            forall|j: int|
                0 <= j < i ==> !names_statement(
                    (#[trigger] descriptors@[j]).short_name@,
                    strings_view(keywords@),
                ),
        decreases descriptors.len() - i,
    {
        if is_named(descriptors[i].short_name.as_str(), keywords) {
            assert(is_first_named(descriptors@, strings_view(keywords@), i as int));
            return Ok(descriptors[i].document_url.clone());
        }
        i += 1;
    }
    Err(PipelineError::NotFound)
}

/// The keywords by which a balance sheet is known: most filers call it
/// "balance sheets", financial institutions "financial condition".
pub fn default_keywords() -> (keywords: Vec<String>)
    ensures
        strings_view(keywords@) == balance_sheet_keywords(),
{
    let mut keywords: Vec<String> = Vec::new();
    keywords.push("balance sheets".to_owned());
    keywords.push("financial condition".to_owned());
    assert(strings_view(keywords@) == balance_sheet_keywords());
    keywords
}

/// The document that holds the balance sheet: that of the first report whose
/// label names one.
pub fn balance_sheets(xml_summaries: &Vec<ReportDescriptor>) -> (found: Result<
    String,
    PipelineError,
>)
    ensures
        match found {
            Ok(url) => exists|at: int|
                is_first_named(xml_summaries@, balance_sheet_keywords(), at) && url@
                    == xml_summaries@[at].document_url@,
            Err(error) => error == PipelineError::NotFound && forall|i: int|
                0 <= i < xml_summaries@.len() ==> !names_statement(
                    (#[trigger] xml_summaries@[i]).short_name@,
                    balance_sheet_keywords(),
                ),
        },
{
    let keywords = default_keywords();
    select_statement(xml_summaries, &keywords)
}

} // verus!
