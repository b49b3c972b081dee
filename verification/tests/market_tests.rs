//! Tests for market-table extraction and the table rendering helpers.

use crypto_scrapper::html::ErrorKind;
use crypto_scrapper::num::Decimal;
use crypto_scrapper::{get_market_data, MarketResult};

fn market_row(venue: &str, pair: &str, price: &str, vol: &str, vol_pct: &str) -> String {
    let mut s = String::from("<tr><td>n</td><td><p><span><u>x</u><span><em>");
    s.push_str(venue);
    s.push_str("</em></span></span></p></td><td><p><span>");
    s.push_str(pair);
    s.push_str("</span></p></td><td>");
    s.push_str(price);
    s.push_str("</td><td><p>");
    s.push_str(vol);
    s.push_str("</p></td><td><p><span>");
    s.push_str(vol_pct);
    s.push_str("</span></p></td></tr>");
    s
}

fn market_page() -> String {
    let mut s = String::from(
        "<table class=\"sc currencies-markets_list \"><thead><tr><th>h</th></tr></thead><tbody>",
    );
    s.push_str(&market_row("Binance", "BTC/USDT", "$101.50", "$2,000", "12,5"));
    s.push_str(&market_row("Kraken", "BTC/EUR", "$99.00", "$500", "3,1"));
    s.push_str("</tbody></table>");
    s
}

#[test]
fn test_get_market_data_reads_rows_in_order() {
    let page = market_page();
    let rows = get_market_data(page.as_str(), 2).expect("both rows should parse");
    assert_eq!(rows.len(), 2);
    assert_eq!(rows[0].source, String::from("Binance"));
    assert_eq!(rows[0].pair, String::from("BTC/USDT"));
    assert_eq!(
        rows[0].price,
        Decimal {
            negative: false,
            mantissa: 10150,
            scale: 2
        }
    );
    assert_eq!(
        rows[0].volume,
        Decimal {
            negative: false,
            mantissa: 2000,
            scale: 0
        }
    );
    assert_eq!(
        rows[0].volume_percent,
        Decimal {
            negative: false,
            mantissa: 125,
            scale: 1
        }
    );
    assert_eq!(rows[1].source, String::from("Kraken"));
    assert_eq!(
        rows[1].volume_percent,
        Decimal {
            negative: false,
            mantissa: 31,
            scale: 1
        }
    );
}

#[test]
fn test_get_market_data_beyond_rows_fails() {
    let page = market_page();
    let err = get_market_data(page.as_str(), 3).unwrap_err();
    assert_eq!(err.kind, ErrorKind::TraversalOutOfBounds);
}

#[test]
fn test_get_market_data_zero_rows_is_empty() {
    let rows = get_market_data("<p>no table at all</p>", 0).expect("nothing to extract");
    assert_eq!(rows.len(), 0);
}

#[test]
fn test_get_header_pads_columns_to_fifteen() {
    let header = MarketResult::get_header();
    assert_eq!(
        header,
        String::from(
            "Source         Pair           Price          Volume         Volume %       "
        )
    );
}

#[test]
fn test_to_row_pads_each_column() {
    let row = MarketResult {
        source: String::from("Binance"),
        pair: String::from("BTC/USDT"),
        price: Decimal {
            negative: false,
            mantissa: 10150,
            scale: 2,
        },
        volume: Decimal {
            negative: false,
            mantissa: 2000,
            scale: 0,
        },
        volume_percent: Decimal {
            negative: false,
            mantissa: 125,
            scale: 1,
        },
    };
    assert_eq!(
        row.to_row(),
        String::from("Binance        BTC/USDT       101.50         2000           12.5")
    );
}

#[test]
fn test_get_spaces_builds_exact_width() {
    assert_eq!(MarketResult::get_spaces(0), String::new());
    assert_eq!(MarketResult::get_spaces(3), String::from("   "));
}
