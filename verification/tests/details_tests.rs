//! Tests for the details query: descriptive section first, about section as
//! fallback, cleaned through the pipeline.

use crypto_scrapper::config::Config;
use crypto_scrapper::get_details;
use crypto_scrapper::html::ErrorKind;

fn details_config() -> Config {
    Config {
        symbols: Vec::new(),
        regex_expressions: vec![String::from("<[^>]*>")],
        replace_expressions: Vec::new(),
        about_regex: String::from("<(h2) (class=\"about\")>"),
        what_is_regex: String::from("<(h2) (class=\"what-is\")>"),
        title_regex: String::from("@@([A-Za-z ]+)@@"),
        price_regex: String::new(),
        price_percentage_regex: String::new(),
        replace: Vec::new(),
    }
}

#[test]
fn test_get_details_prefers_descriptive_section() {
    let page = "<div><h2 class=\"what-is\">What is X</h2><p>the details</p></div>\
<div><h2 class=\"about\">About</h2><p>about text</p></div>";
    let details = get_details(page, &details_config()).expect("the section should resolve");
    // The parent of the heading holds heading and paragraph; the cleanup
    // pipeline strips the tags.
    assert_eq!(details, String::from("What is Xthe details"));
}

#[test]
fn test_get_details_falls_back_to_about_section() {
    let page = "<div><h2 class=\"about\">About X</h2><p>about text</p></div>";
    let details = get_details(page, &details_config()).expect("the fallback should resolve");
    assert_eq!(details, String::from("About Xabout text"));
}

#[test]
fn test_get_details_with_general_heading_pattern() {
    let page = "<div><h2 id=\"what-is-bitcoin\">What Is Bitcoin?</h2><p>A ledger.</p></div>";
    let mut cfg = details_config();
    cfg.what_is_regex = String::from("<(h\\d)\\s{1}(.{1,20}=\"what-is-.*?\")>.*?</h\\d>");
    let details = get_details(page, &cfg).expect("the heading should anchor");
    assert_eq!(details, String::from("What Is Bitcoin?A ledger."));
}

#[test]
fn test_get_details_reports_failure_of_fallback() {
    let page = "<p>nothing of interest</p>";
    let err = get_details(page, &details_config()).unwrap_err();
    assert_eq!(err.kind, ErrorKind::PatternNotFound);
}
