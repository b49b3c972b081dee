//! Tests for batch processing: one outcome per symbol, failures contained.

use crypto_scrapper::html::{ErrorKind, ParseError};
use crypto_scrapper::num::Decimal;
use crypto_scrapper::{run_batch, FetchTask};

const PRICE_REGEX: &str = "(div) (class=\"priceSection\")";
const PERCENT_REGEX: &str = "<span class=\"(icon-Caret-[a-z]+)\"></span>([0-9.]+)%";

fn good_page(price: &str, pct: &str) -> String {
    let mut s = String::from("<div class=\"priceSection\"><span class=\"priceValue\">");
    s.push_str(price);
    s.push_str("</span><span class=\"change\"><span class=\"icon-Caret-up\"></span>");
    s.push_str(pct);
    s.push_str("%</span></div>");
    s
}

#[test]
fn test_run_batch_yields_one_outcome_per_symbol() {
    let tasks = vec![
        FetchTask {
            symbol: String::from("alpha"),
            page: Ok(good_page("$1.21", "18.45")),
        },
        FetchTask {
            symbol: String::from("beta"),
            page: Err(ParseError::with_kind(
                ErrorKind::FetchFailure,
                String::from("timed out"),
            )),
        },
        FetchTask {
            symbol: String::from("gamma"),
            page: Ok(String::from("<p>not a price page</p>")),
        },
        FetchTask {
            symbol: String::from("delta"),
            page: Ok(good_page("$2.00", "0.10")),
        },
    ];
    let outcomes = run_batch(&tasks, PRICE_REGEX, PERCENT_REGEX);
    assert_eq!(outcomes.len(), 4);
    let first = outcomes[0].as_ref().unwrap();
    assert_eq!(first.symbol, String::from("alpha"));
    assert_eq!(
        first.price,
        Decimal {
            negative: false,
            mantissa: 121,
            scale: 2
        }
    );
    let second = outcomes[1].as_ref().unwrap_err();
    assert_eq!(second.kind, ErrorKind::FetchFailure);
    let third = outcomes[2].as_ref().unwrap_err();
    assert_eq!(third.kind, ErrorKind::PatternNotFound);
    let fourth = outcomes[3].as_ref().unwrap();
    assert_eq!(fourth.symbol, String::from("delta"));
    assert_eq!(
        fourth.price,
        Decimal {
            negative: false,
            mantissa: 200,
            scale: 2
        }
    );
}

#[test]
fn test_run_batch_on_empty_input_yields_nothing() {
    let outcomes = run_batch(&Vec::new(), PRICE_REGEX, PERCENT_REGEX);
    assert_eq!(outcomes.len(), 0);
}
