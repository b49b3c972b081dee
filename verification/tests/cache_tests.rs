//! Tests for the page cache and the fetch-or-serve decision.

use std::cell::Cell;

use crypto_scrapper::html::{get_or_fetch, Cache, HtmlParser};

#[test]
fn test_cache_serves_stored_page_on_plain_lookup() {
    let mut cache = Cache::new(45);
    assert!(cache.get("https://example.test/a", false, 100).is_none());
    cache.insert("https://example.test/a", &String::from("page a"), 100);
    let entry = cache.get("https://example.test/a", false, 100).unwrap();
    assert_eq!(entry.html, String::from("page a"));
    assert_eq!(entry.timestamp, 100);
    // A plain lookup ignores age entirely.
    let entry_much_later = cache.get("https://example.test/a", false, 100_000).unwrap();
    assert_eq!(entry_much_later.html, String::from("page a"));
}

#[test]
fn test_cache_reload_respects_staleness_window() {
    let mut cache = Cache::new(45);
    cache.insert("u", &String::from("v1"), 100);
    // Younger than the window: served.
    assert!(cache.get("u", true, 144).is_some());
    // The window has elapsed: refused, the caller must fetch.
    assert!(cache.get("u", true, 145).is_none());
}

#[test]
fn test_cache_overwrite_on_refetch_serves_fresh_page() {
    let mut cache = Cache::new(45);
    cache.insert("u", &String::from("old"), 100);
    cache.insert("u", &String::from("new"), 200);
    let entry = cache.get("u", false, 200).unwrap();
    assert_eq!(entry.html, String::from("new"));
    assert_eq!(entry.timestamp, 200);
    // The old entry was replaced, not shadowed: storage holds one entry.
    assert_eq!(cache.entries.len(), 1);
}

#[test]
fn test_cache_entry_count_grows_only_for_new_keys() {
    let mut cache = Cache::new(45);
    cache.insert("a", &String::from("v1"), 100);
    assert_eq!(cache.entries.len(), 1);
    cache.insert("b", &String::from("v2"), 100);
    assert_eq!(cache.entries.len(), 2);
    cache.insert("a", &String::from("v3"), 150);
    assert_eq!(cache.entries.len(), 2);
    assert_eq!(cache.get("a", false, 150).unwrap().html, String::from("v3"));
    assert_eq!(cache.get("b", false, 150).unwrap().html, String::from("v2"));
}

#[test]
fn test_get_or_fetch_invokes_renderer_at_most_once() {
    let mut cache = Cache::new(45);
    let calls = Cell::new(0u32);
    let first = get_or_fetch(
        &mut cache,
        "https://example.test/p",
        |_u: &str| {
            calls.set(calls.get() + 1);
            Ok(String::from("rendered"))
        },
        false,
        100,
    )
    .unwrap();
    assert_eq!(first, String::from("rendered"));
    assert_eq!(calls.get(), 1);
    let second = get_or_fetch(
        &mut cache,
        "https://example.test/p",
        |_u: &str| {
            calls.set(calls.get() + 1);
            Ok(String::from("rendered again"))
        },
        false,
        2000,
    )
    .unwrap();
    // Served from the cache: the renderer was not called a second time.
    assert_eq!(second, String::from("rendered"));
    assert_eq!(calls.get(), 1);
}

#[test]
fn test_get_or_fetch_refetches_after_window_elapses() {
    let mut cache = Cache::new(45);
    let calls = Cell::new(0u32);
    let _ = get_or_fetch(
        &mut cache,
        "u",
        |_u: &str| {
            calls.set(calls.get() + 1);
            Ok(String::from("v1"))
        },
        true,
        100,
    );
    assert_eq!(calls.get(), 1);
    let fresh = get_or_fetch(
        &mut cache,
        "u",
        |_u: &str| {
            calls.set(calls.get() + 1);
            Ok(String::from("v2"))
        },
        true,
        146,
    )
    .unwrap();
    assert_eq!(calls.get(), 2);
    assert_eq!(fresh, String::from("v2"));
    let entry = cache.get("u", false, 146).unwrap();
    assert_eq!(entry.html, String::from("v2"));
}

#[test]
fn test_get_or_fetch_passes_renderer_error_through() {
    let mut cache = Cache::new(45);
    let err = get_or_fetch(
        &mut cache,
        "u",
        |_u: &str| {
            Err(crypto_scrapper::html::ParseError::with_kind(
                crypto_scrapper::html::ErrorKind::FetchFailure,
                String::from("unreachable"),
            ))
        },
        false,
        100,
    )
    .unwrap_err();
    assert_eq!(err.kind, crypto_scrapper::html::ErrorKind::FetchFailure);
    assert!(cache.get("u", false, 100).is_none());
}

#[test]
fn test_html_parser_starts_with_empty_cache() {
    let parser = HtmlParser::new(45).unwrap();
    assert_eq!(parser.cache.entries.len(), 0);
    assert_eq!(parser.cache.refresh_after, 45);
}
