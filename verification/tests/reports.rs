use edgar_statements::error::PipelineError;
use edgar_statements::reports::{
    balance_sheets, default_keywords, is_named, manifest_base, master_reports, select_statement,
    Report, ReportDescriptor,
};

fn report(short: Option<&str>, html: Option<&str>, xml: Option<&str>) -> Report {
    Report {
        short_name: short.map(String::from),
        html_file_name: html.map(String::from),
        xml_file_name: xml.map(String::from),
    }
}

fn descriptor(short: &str, url: &str) -> ReportDescriptor {
    ReportDescriptor { short_name: short.to_string(), document_url: url.to_string() }
}

const SUMMARY: &str = "https://www.sec.gov/Archives/edgar/data/1/2/FilingSummary.xml";

#[test]
fn manifest_base_is_the_address_without_the_file_name() {
    assert_eq!(manifest_base(SUMMARY), "https://www.sec.gov/Archives/edgar/data/1/2/");
    assert_eq!(manifest_base("FilingSummary.xml"), "");
}

#[test]
fn manifest_base_takes_only_the_trailing_name_off() {
    assert_eq!(manifest_base("a/FilingSummary.xml/b/FilingSummary.xml"), "a/FilingSummary.xml/b/");
}

#[test]
fn manifest_base_of_another_address_loses_every_occurrence() {
    assert_eq!(manifest_base("a/FilingSummary.xml?x"), "a/?x");
    assert_eq!(manifest_base("a/b/other.xml"), "a/b/other.xml");
}

#[test]
fn master_reports_drops_the_last_of_several() {
    let reports = vec![
        report(Some("Cover"), Some("R1.htm"), None),
        report(Some("Balance Sheets"), Some("R2.htm"), Some("R2.xml")),
        report(Some("Notes"), None, Some("R3.xml")),
        report(Some("All Reports"), Some("Rall.htm"), None),
    ];
    assert_eq!(
        master_reports(SUMMARY, &reports),
        vec![
            descriptor("Cover", "https://www.sec.gov/Archives/edgar/data/1/2/R1.htm"),
            descriptor("Balance Sheets", "https://www.sec.gov/Archives/edgar/data/1/2/R2.htm"),
            descriptor("Notes", "https://www.sec.gov/Archives/edgar/data/1/2/R3.xml"),
        ]
    );
}

#[test]
fn master_reports_keeps_a_single_report() {
    let reports = vec![report(Some("Only"), None, Some("R1.xml"))];
    assert_eq!(
        master_reports(SUMMARY, &reports),
        vec![descriptor("Only", "https://www.sec.gov/Archives/edgar/data/1/2/R1.xml")]
    );
    assert_eq!(master_reports(SUMMARY, &Vec::new()), Vec::new());
}

#[test]
fn master_reports_of_two_gives_one() {
    let reports = vec![
        report(Some("A"), Some("R1.htm"), Some("R1.xml")),
        report(Some("B"), Some("R2.htm"), None),
    ];
    assert_eq!(
        master_reports(SUMMARY, &reports),
        vec![descriptor("A", "https://www.sec.gov/Archives/edgar/data/1/2/R1.htm")]
    );
}

#[test]
fn report_without_fields_gets_empty_label_and_bare_directory() {
    let reports = vec![report(None, None, None), report(Some("last"), None, None)];
    assert_eq!(
        master_reports(SUMMARY, &reports),
        vec![descriptor("", "https://www.sec.gov/Archives/edgar/data/1/2/")]
    );
}

#[test]
fn default_keywords_are_the_two_names_of_a_balance_sheet() {
    assert_eq!(default_keywords(), vec!["balance sheets".to_string(), "financial condition".to_string()]);
}

#[test]
fn label_matches_whatever_its_case() {
    let keywords = default_keywords();
    assert!(is_named("Balance Sheets (Unaudited)", &keywords));
    assert!(is_named("CONSOLIDATED BALANCE SHEETS", &keywords));
    assert!(is_named("Statements of Financial Condition", &keywords));
    assert!(!is_named("Balance Sheet", &keywords));
    assert!(!is_named("Statements of Operations", &keywords));
    assert!(!is_named("", &keywords));
}

#[test]
fn keywords_are_taken_as_they_are() {
    let upper = vec!["BALANCE".to_string()];
    assert!(!is_named("Balance Sheets", &upper));
    assert!(!is_named("anything", &Vec::new()));
    assert!(is_named("anything", &vec![String::new()]));
}

#[test]
fn select_returns_the_first_matching_document() {
    let descriptors = vec![
        descriptor("Cover Page", "u/R1.htm"),
        descriptor("Consolidated Balance Sheets (Unaudited)", "u/R2.htm"),
        descriptor("Consolidated Balance Sheets (Parenthetical)", "u/R3.htm"),
    ];
    assert_eq!(balance_sheets(&descriptors), Ok("u/R2.htm".to_string()));
    let keywords = vec!["parenthetical".to_string()];
    assert_eq!(select_statement(&descriptors, &keywords), Ok("u/R3.htm".to_string()));
}

#[test]
fn select_finds_the_statement_of_a_financial_institution() {
    let descriptors = vec![
        descriptor("Cover", "u/R1.htm"),
        descriptor("Consolidated Statements of Financial Condition", "u/R4.htm"),
    ];
    assert_eq!(balance_sheets(&descriptors), Ok("u/R4.htm".to_string()));
}

#[test]
fn select_without_a_match_is_not_found() {
    let descriptors = vec![
        descriptor("Cover Page", "u/R1.htm"),
        descriptor("Statements of Cash Flows", "u/R5.htm"),
    ];
    assert_eq!(balance_sheets(&descriptors), Err(PipelineError::NotFound));
    assert_eq!(balance_sheets(&Vec::new()), Err(PipelineError::NotFound));
}
