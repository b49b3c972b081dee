//! Tests for price extraction: the numeric model, the cleaned price text,
//! and the signed percentage change.

use crypto_scrapper::num::{parse_decimal, Decimal};
use crypto_scrapper::text::str_to_chars;
use crypto_scrapper::{cleanup_number, parse_price, PriceResult};

const PRICE_PAGE: &str = "<div class=\"priceSection\"><span class=\"priceValue\">$1,234.56</span>\
<span class=\"change\"><span class=\"icon-Caret-up\"></span>18.45%</span></div>";

const PRICE_PAGE_DOWN: &str = "<div class=\"priceSection\"><span class=\"priceValue\">$1.21</span>\
<span class=\"change\"><span class=\"icon-Caret-down\"></span>18.45%</span></div>";

const PRICE_REGEX: &str = "(div) (class=\"priceSection\")";
const PERCENT_REGEX: &str = "<span class=\"(icon-Caret-[a-z]+)\"></span>([0-9.]+)%";

#[test]
fn test_price_value_cleans_and_parses() {
    // A document containing the price element: the locator resolves it and
    // its inner text, cleaned of the dollar sign and commas, parses as the
    // exact decimal.
    let page = "<div class=\"priceValue\">$1.21</div>";
    let texts = crypto_scrapper::html::get_inner_html_from_element(
        "(div) (class=\".*priceValue.*\")",
        page,
        vec![vec![]],
    )
    .expect("the price element should resolve");
    assert_eq!(texts[0], String::from("$1.21"));
    let cleaned = cleanup_number(&texts[0]);
    assert_eq!(cleaned, String::from("1.21"));
    let value = parse_decimal(&str_to_chars(cleaned.as_str())).expect("a plain decimal");
    assert_eq!(
        value,
        Decimal {
            negative: false,
            mantissa: 121,
            scale: 2
        }
    );
}

#[test]
fn test_parse_price_reads_price_and_upward_change() {
    let r = parse_price(PRICE_PAGE, String::from("testcoin"), PRICE_REGEX, PERCENT_REGEX)
        .expect("the page should parse");
    assert_eq!(r.symbol, String::from("testcoin"));
    assert_eq!(
        r.price,
        Decimal {
            negative: false,
            mantissa: 123456,
            scale: 2
        }
    );
    assert_eq!(
        r.change,
        Decimal {
            negative: false,
            mantissa: 1845,
            scale: 2
        }
    );
}

#[test]
fn test_parse_price_reads_downward_change_as_negative() {
    let r = parse_price(
        PRICE_PAGE_DOWN,
        String::from("testcoin"),
        PRICE_REGEX,
        PERCENT_REGEX,
    )
    .expect("the page should parse");
    assert_eq!(
        r.change,
        Decimal {
            negative: true,
            mantissa: 1845,
            scale: 2
        }
    );
}

#[test]
fn test_parse_price_without_percentage_block_fails() {
    let page = "<div class=\"priceSection\"><span class=\"priceValue\">$1.21</span>\
<span class=\"change\">no markup</span></div>";
    let err = parse_price(page, String::from("x"), PRICE_REGEX, PERCENT_REGEX).unwrap_err();
    assert_eq!(
        err.kind,
        crypto_scrapper::html::ErrorKind::ConfigurationInvalid
    );
}

#[test]
fn test_parse_price_missing_anchor_fails() {
    let page = "<p>nothing here</p>";
    let err = parse_price(page, String::from("x"), PRICE_REGEX, PERCENT_REGEX).unwrap_err();
    assert_eq!(err.kind, crypto_scrapper::html::ErrorKind::PatternNotFound);
}

#[test]
fn test_price_result_to_string_tabs_symbol_and_price() {
    let r = PriceResult {
        symbol: String::from("btc"),
        price: Decimal {
            negative: false,
            mantissa: 5,
            scale: 3,
        },
        change: Decimal {
            negative: false,
            mantissa: 0,
            scale: 0,
        },
    };
    assert_eq!(r.to_string(), String::from("btc\t0.005"));
}

#[test]
fn test_parse_decimal_rejects_malformed_text() {
    assert!(parse_decimal(&str_to_chars("")).is_err());
    assert!(parse_decimal(&str_to_chars(".")).is_err());
    assert!(parse_decimal(&str_to_chars("1.2.3")).is_err());
    assert!(parse_decimal(&str_to_chars("12a")).is_err());
    assert!(parse_decimal(&str_to_chars("99999999999999999999999")).is_err());
}

#[test]
fn test_parse_decimal_accepts_plain_forms() {
    assert_eq!(
        parse_decimal(&str_to_chars("42")).unwrap(),
        Decimal {
            negative: false,
            mantissa: 42,
            scale: 0
        }
    );
    assert_eq!(
        parse_decimal(&str_to_chars(".5")).unwrap(),
        Decimal {
            negative: false,
            mantissa: 5,
            scale: 1
        }
    );
    assert_eq!(
        parse_decimal(&str_to_chars("7.")).unwrap(),
        Decimal {
            negative: false,
            mantissa: 7,
            scale: 0
        }
    );
}
