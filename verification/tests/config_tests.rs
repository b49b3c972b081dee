//! Tests for the configuration values and the front-end listing helper.

use crypto_scrapper::config::{Config, ConfigObject, Replace};
use crypto_scrapper::frontend::get_indexed_symbols;

fn sample_config() -> Config {
    Config {
        symbols: vec![
            String::from("bitcoin"),
            String::from("ethereum"),
            String::from("multi-collateral-dai"),
        ],
        regex_expressions: Vec::new(),
        replace_expressions: Vec::new(),
        about_regex: String::from("about_regex"),
        what_is_regex: String::from("what_is_regex"),
        title_regex: String::from("title_regex"),
        price_regex: String::from("price_regex"),
        price_percentage_regex: String::from("price_percentage_regex"),
        replace: Vec::new(),
    }
}

#[test]
fn test_new() {
    let config_file = ConfigObject::new(sample_config(), String::from("./config/test.toml"));
    assert_eq!(
        config_file.configuration.about_regex,
        String::from("about_regex")
    );
    assert_eq!(
        config_file.configuration.what_is_regex,
        String::from("what_is_regex")
    );
    assert_eq!(config_file.configuration.symbols.len(), 3);
}

#[test]
fn test_add_and_delete_symbol() {
    let mut cfg = ConfigObject::new(sample_config(), String::from("test"));
    cfg.add_symbol(String::from("dogecoin"));
    assert_eq!(cfg.configuration.symbols.len(), 4);
    assert_eq!(cfg.configuration.symbols[3], String::from("dogecoin"));
    let removed = cfg.delete_symbol(0);
    assert_eq!(removed, String::from("bitcoin"));
    assert_eq!(cfg.configuration.symbols.len(), 3);
    assert_eq!(cfg.configuration.symbols[0], String::from("ethereum"));
}

#[test]
fn test_get_symbols_copies_all() {
    let cfg = ConfigObject::new(sample_config(), String::from("test"));
    let symbols = cfg.get_symbols();
    assert_eq!(symbols.len(), 3);
    assert_eq!(symbols[0], String::from("bitcoin"));
    assert_eq!(symbols[2], String::from("multi-collateral-dai"));
}

#[test]
fn test_get_indexed_symbols_numbers_from_one() {
    let symbols = vec![String::from("btc"), String::from("eth")];
    let listing = get_indexed_symbols(&symbols);
    assert_eq!(listing, String::from("1. btc\n2. eth\n"));
}

#[test]
fn test_replace_rule_fields() {
    let rule = Replace {
        from: String::from("a"),
        to: String::from("b"),
    };
    assert_eq!(rule.from, String::from("a"));
    assert_eq!(rule.to, String::from("b"));
}
