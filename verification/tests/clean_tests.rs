//! Tests for the result cleanup pipeline.

use crypto_scrapper::cleanup_result_string;
use crypto_scrapper::config::{Config, Replace};

fn rules() -> Config {
    Config {
        symbols: Vec::new(),
        regex_expressions: vec![String::from("<[^>]*>")],
        replace_expressions: vec![String::from("&nbsp;")],
        about_regex: String::new(),
        what_is_regex: String::new(),
        title_regex: String::from("## ([A-Za-z ]+) ##"),
        price_regex: String::new(),
        price_percentage_regex: String::new(),
        replace: vec![Replace {
            from: String::from("&amp;"),
            to: String::from("&"),
        }],
    }
}

#[test]
fn test_cleanup_applies_all_stages_in_order() {
    let text = String::from(
        "<p>salt &amp; pepper</p>\\nrest&nbsp;here ## A Title ## tail",
    );
    let cleaned = cleanup_result_string(text, &rules());
    assert_eq!(
        cleaned,
        String::from("salt & pepper\nresthere \n------------A Title------------\n tail")
    );
}

#[test]
fn test_cleanup_strips_every_pattern_match() {
    let text = String::from("<b>a</b><i>b</i>");
    let cleaned = cleanup_result_string(text, &rules());
    assert_eq!(cleaned, String::from("ab"));
}

#[test]
fn test_cleanup_is_idempotent_on_nonreintroducing_rules() {
    // The rule sets above do not reintroduce anything they remove, so a
    // second pass changes nothing.
    let text = String::from("<p>salt &amp; pepper</p>\\nrest&nbsp;gone");
    let once = cleanup_result_string(text, &rules());
    let twice = cleanup_result_string(once.clone(), &rules());
    assert_eq!(twice, once);
}

#[test]
fn test_cleanup_with_empty_rules_normalizes_newlines_only() {
    let cfg = Config {
        symbols: Vec::new(),
        regex_expressions: Vec::new(),
        replace_expressions: Vec::new(),
        about_regex: String::new(),
        what_is_regex: String::new(),
        title_regex: String::from("## ([A-Za-z ]+) ##"),
        price_regex: String::new(),
        price_percentage_regex: String::new(),
        replace: Vec::new(),
    };
    let cleaned = cleanup_result_string(String::from("line\\nnext"), &cfg);
    assert_eq!(cleaned, String::from("line\nnext"));
}
