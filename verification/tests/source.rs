use std::hash::Hash;
use std::hash::Hasher;
use thumbor::error::Error;
use thumbor::source::key_of;
use thumbor::source::SourceUrl;

#[test]
fn absolute_urls_are_accepted() {
    let url = SourceUrl::parse("https://example.com/images/cat.png?size=2").unwrap();
    assert_eq!(url.as_str(), "https://example.com/images/cat.png?size=2");
}

#[test]
fn text_without_a_scheme_is_rejected() {
    assert_eq!(SourceUrl::parse("abc").unwrap_err(), Error::InvalidUrl);
    assert_eq!(SourceUrl::parse("").unwrap_err(), Error::InvalidUrl);
    assert_eq!(SourceUrl::parse("/images/cat.png").unwrap_err(), Error::InvalidUrl);
    assert_eq!(SourceUrl::parse("//example.com/cat.png").unwrap_err(), Error::InvalidUrl);
}

#[test]
fn segment_is_percent_decoded_before_it_is_parsed() {
    let url = SourceUrl::from_segment("https%3A%2F%2Fexample.com%2Fa%20b.png").unwrap();
    assert_eq!(url.as_str(), "https://example.com/a b.png");
}

#[test]
fn segment_that_decodes_to_no_url_is_rejected() {
    assert_eq!(SourceUrl::from_segment("not%20a%20url").unwrap_err(), Error::InvalidUrl);
    assert_eq!(SourceUrl::from_segment("%2Fonly%2Fa%2Fpath").unwrap_err(), Error::InvalidUrl);
}

#[test]
fn malformed_percent_sequences_are_read_lossily() {
    let url = SourceUrl::from_segment("https://example.com/%FF").unwrap();
    assert_eq!(url.as_str(), "https://example.com/\u{FFFD}");
    let kept = SourceUrl::from_segment("https://example.com/100%").unwrap();
    assert_eq!(kept.as_str(), "https://example.com/100%");
}

#[test]
fn equal_urls_have_equal_keys() {
    let a = SourceUrl::parse("https://example.com/a.png").unwrap();
    let b = SourceUrl::from_segment("https%3A%2F%2Fexample.com%2Fa.png").unwrap();
    assert_eq!(a.key(), b.key());
    assert_eq!(a.key(), key_of("https://example.com/a.png"));
}

#[test]
fn key_depends_on_the_url() {
    assert_ne!(key_of("https://example.com/a.png"), key_of("https://example.com/b.png"));
    assert_ne!(key_of(""), key_of("a"));
}

#[test]
fn key_is_the_default_hashers_value() {
    let mut hasher = std::collections::hash_map::DefaultHasher::new();
    "https://example.com/a.png".hash(&mut hasher);
    assert_eq!(key_of("https://example.com/a.png"), hasher.finish());
}

#[test]
fn keys_of_many_urls_do_not_collide() {
    let mut keys = Vec::new();
    let mut i: u32 = 0;
    while i < 2000 {
        keys.push(key_of(&format!("https://example.com/images/{}.png", i)));
        i += 1;
    }
    keys.sort();
    keys.dedup();
    assert_eq!(keys.len(), 2000);
}
