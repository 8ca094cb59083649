use edgar_statements::directory::{
    filing_summaries, filing_summary, DirectoryItem, DirectoryManifest,
};
use edgar_statements::error::{MissingField, PipelineError};

const LISTING: &str = r#"{"directory": {"name": "/Archives/edgar/data/320193/000032019324000081",
  "parent-dir": "/Archives/edgar/data/320193",
  "item": [
    {"name": "0000320193-24-000081-index.html", "size": ""},
    {"name": "FilingSummary.xml", "size": "57000"},
    {"name": "R2.htm", "size": "100"}
  ]}}"#;

fn item(name: &str) -> DirectoryItem {
    DirectoryItem { name: Some(name.to_string()) }
}

#[test]
fn read_takes_name_and_items_from_the_listing() {
    let manifest = DirectoryManifest::read(LISTING).unwrap();
    assert_eq!(
        manifest,
        DirectoryManifest {
            directory_name: "/Archives/edgar/data/320193/000032019324000081".to_string(),
            items: vec![
                item("0000320193-24-000081-index.html"),
                item("FilingSummary.xml"),
                item("R2.htm"),
            ],
        }
    );
}

#[test]
fn read_marks_items_without_a_name() {
    let text = r#"{"directory": {"name": "d", "item": [{"size": "1"}, {"name": 7}, 3, {"name": "x"}]}}"#;
    let manifest = DirectoryManifest::read(text).unwrap();
    assert_eq!(
        manifest.items,
        vec![
            DirectoryItem { name: None },
            DirectoryItem { name: None },
            DirectoryItem { name: None },
            item("x"),
        ]
    );
}

#[test]
fn summary_url_is_built_from_the_directory_name() {
    assert_eq!(
        filing_summary(LISTING),
        Ok(Some(
            "https://www.sec.gov//Archives/edgar/data/320193/000032019324000081/FilingSummary.xml"
                .to_string()
        ))
    );
    let manifest = DirectoryManifest {
        directory_name: "Archives/x".to_string(),
        items: vec![item("a"), item("FilingSummary.xml"), item("FilingSummary.xml")],
    };
    assert_eq!(
        manifest.summary_url(),
        Some("https://www.sec.gov/Archives/x/FilingSummary.xml".to_string())
    );
}

#[test]
fn listing_without_summary_is_absent_not_an_error() {
    let text = r#"{"directory": {"name": "d", "item": [{"name": "R1.htm"}, {"name": "a.xml"}]}}"#;
    assert_eq!(filing_summary(text), Ok(None));
    let empty = r#"{"directory": {"name": "d", "item": []}}"#;
    assert_eq!(filing_summary(empty), Ok(None));
}

#[test]
fn summary_name_must_match_exactly() {
    for name in [
        "filingsummary.xml",
        "FILINGSUMMARY.XML",
        "FilingSummary.xml ",
        " FilingSummary.xml",
        "FilingSummary.xm",
        "xFilingSummary.xml",
        "",
    ] {
        let manifest = DirectoryManifest { directory_name: "d".to_string(), items: vec![item(name)] };
        assert_eq!(manifest.summary_url(), None);
    }
    let unnamed =
        DirectoryManifest { directory_name: "d".to_string(), items: vec![DirectoryItem { name: None }] };
    assert_eq!(unnamed.summary_url(), None);
}

#[test]
fn malformed_listing_is_a_parse_error() {
    assert_eq!(filing_summary("{\"directory\": "), Err(PipelineError::Parse));
    assert_eq!(filing_summary(""), Err(PipelineError::Parse));
    assert_eq!(filing_summary("<html></html>"), Err(PipelineError::Parse));
}

#[test]
fn listing_without_directory_name_is_a_schema_error() {
    let missing = PipelineError::Schema(MissingField::DirectoryName);
    assert_eq!(filing_summary(r#"{"directory": {"item": []}}"#), Err(missing));
    assert_eq!(filing_summary(r#"{"directory": {"name": 5, "item": []}}"#), Err(missing));
    assert_eq!(filing_summary(r#"{"other": 1}"#), Err(missing));
    assert_eq!(filing_summary("[1, 2]"), Err(missing));
    assert_eq!(filing_summary("null"), Err(missing));
}

#[test]
fn listing_without_item_list_is_a_schema_error() {
    let missing = PipelineError::Schema(MissingField::DirectoryItems);
    assert_eq!(filing_summary(r#"{"directory": {"name": "d"}}"#), Err(missing));
    assert_eq!(
        filing_summary(r#"{"directory": {"name": "d", "item": {"name": "FilingSummary.xml"}}}"#),
        Err(missing)
    );
}

#[test]
fn filing_summaries_skips_listings_without_a_summary() {
    let without = r#"{"directory": {"name": "b", "item": [{"name": "R1.htm"}]}}"#;
    let with_a = r#"{"directory": {"name": "a", "item": [{"name": "FilingSummary.xml"}]}}"#;
    let with_c = r#"{"directory": {"name": "c", "item": [{"name": "FilingSummary.xml"}]}}"#;
    let listings = vec![with_a.to_string(), without.to_string(), with_c.to_string()];
    assert_eq!(
        filing_summaries(&listings),
        Ok(vec![
            "https://www.sec.gov/a/FilingSummary.xml".to_string(),
            "https://www.sec.gov/c/FilingSummary.xml".to_string(),
        ])
    );
    assert_eq!(filing_summaries(&Vec::new()), Ok(Vec::new()));
}

#[test]
fn filing_summaries_fails_with_the_first_error() {
    let good = r#"{"directory": {"name": "a", "item": [{"name": "FilingSummary.xml"}]}}"#;
    let no_items = r#"{"directory": {"name": "a"}}"#;
    let listings = vec![good.to_string(), no_items.to_string(), "{".to_string()];
    assert_eq!(
        filing_summaries(&listings),
        Err(PipelineError::Schema(MissingField::DirectoryItems))
    );
}

#[test]
fn error_messages_name_the_failure() {
    assert_eq!(
        PipelineError::Schema(MissingField::DirectoryName).message(),
        "Directory name not found in JSON"
    );
    assert_eq!(
        PipelineError::Schema(MissingField::DirectoryItems).message(),
        "No items found in directory"
    );
    assert_eq!(PipelineError::NotFound.message(), "Could not find balance sheet url.");
    assert_eq!(PipelineError::Parse.message(), "The document is not well formed.");
    assert_eq!(PipelineError::Network.message(), "The request could not be sent or answered.");
}
