use media_resolver_core::source::{descriptor_from_key, inspect_source, validate_source_key};
use media_resolver_core::ResolveError;

#[test]
fn source_identifies_supported_status_paths() {
    let input = inspect_source("https://x.com/example/status/2011590242474893548/photo/1?x=1")
        .expect("supported input");
    assert_eq!(input.source_key, "2011590242474893548");
}

#[test]
fn source_rejects_oversized_source_key() {
    let source = "1".repeat(21);
    assert_eq!(validate_source_key(&source), Err(ResolveError::InvalidInput));
}

#[test]
fn keys_need_two_to_twenty_digits() {
    assert_eq!(validate_source_key("1"), Err(ResolveError::InvalidInput));
    assert_eq!(validate_source_key("12"), Ok(()));
    assert_eq!(validate_source_key(&"9".repeat(20)), Ok(()));
    assert_eq!(validate_source_key("1\u{663}"), Err(ResolveError::InvalidInput));
}

#[test]
fn recognised_links_use_the_canonical_form() {
    let d = inspect_source("  http://www.twitter.com/someone/status/123456?ref=x  ").unwrap();
    assert_eq!(d.source_key, "123456");
    assert_eq!(d.normalized_input, "https://x.com/i/status/123456");
    assert_eq!(descriptor_from_key("123456"), Ok(d));
}

#[test]
fn unsupported_links_are_refused() {
    assert_eq!(inspect_source(""), Err(ResolveError::InvalidInput));
    assert_eq!(inspect_source("ftp://x.com/a/status/123"), Err(ResolveError::UnsupportedInput));
    assert_eq!(inspect_source("https://x.com/status"), Err(ResolveError::UnsupportedInput));
    assert_eq!(inspect_source("https://x.com/a/status/12x"), Err(ResolveError::InvalidInput));
}
