use thumbor::args::parse_kv_pair;
use thumbor::args::parse_url;
use thumbor::args::KvError;
use thumbor::args::UrlError;
use thumbor::client::json_subtype;
use thumbor::args::KvPair;
use thumbor::client::body_text;
use thumbor::client::is_json;

#[test]
fn test_parse_url() {
    assert!(parse_url("http://example.com").is_ok());
    assert!(parse_url("https://example.xyz").is_ok());
    assert!(parse_url("abc").is_err());
}

#[test]
fn parse_url_hands_the_text_back_as_written() {
    assert_eq!(parse_url("HTTP://Example.COM"), Ok("HTTP://Example.COM".to_string()));
    assert_eq!(
        parse_url("abc"),
        Err(UrlError { message: "relative URL without a base".to_string() })
    );
    assert_eq!(parse_url("http://").unwrap_err().message, "empty host");
}

#[test]
fn pair_is_split_at_the_first_equals_sign() {
    let pair = KvPair::from_str("name=value").unwrap();
    assert_eq!(pair.k, "name");
    assert_eq!(pair.v, "value");
}

#[test]
fn pair_keeps_the_first_two_fields_only() {
    let pair = parse_kv_pair("a=b=c").unwrap();
    assert_eq!(pair.k, "a");
    assert_eq!(pair.v, "b");
}

#[test]
fn pair_may_have_an_empty_key_or_value() {
    let no_value = parse_kv_pair("key=").unwrap();
    assert_eq!((no_value.k.as_str(), no_value.v.as_str()), ("key", ""));
    let no_key = parse_kv_pair("=value").unwrap();
    assert_eq!((no_key.k.as_str(), no_key.v.as_str()), ("", "value"));
    let bare = parse_kv_pair("=").unwrap();
    assert_eq!((bare.k.as_str(), bare.v.as_str()), ("", ""));
    let doubled = parse_kv_pair("k==v").unwrap();
    assert_eq!((doubled.k.as_str(), doubled.v.as_str()), ("k", ""));
}

#[test]
fn pair_without_an_equals_sign_is_refused() {
    assert_eq!(parse_kv_pair("novalue").err(), Some(KvError { input: "novalue".to_string() }));
    assert_eq!(parse_kv_pair("").err(), Some(KvError { input: String::new() }));
    assert_eq!(KvPair::from_str("a b").err(), Some(KvError { input: "a b".to_string() }));
}

#[test]
fn refused_pair_says_what_could_not_be_parsed() {
    assert_eq!(KvPair::from_str("abc").unwrap_err().message(), "Faild to parse abc");
    assert_eq!(parse_kv_pair("").unwrap_err().message(), "Faild to parse ");
}

#[test]
fn content_type_that_is_no_media_type_has_no_subtype() {
    assert_eq!(json_subtype("application/json"), Some(true));
    assert_eq!(json_subtype("image/png"), Some(false));
    assert_eq!(json_subtype("not a media type"), None);
    assert_eq!(json_subtype(""), None);
}

#[test]
fn pair_is_split_by_characters_not_bytes() {
    let pair = parse_kv_pair("größe=klein=€").unwrap();
    assert_eq!(pair.k, "größe");
    assert_eq!(pair.v, "klein");
}

#[test]
fn json_bodies_are_recognised_by_their_subtype() {
    assert!(is_json(Some("application/json")));
    assert!(is_json(Some("application/json; charset=utf-8")));
    assert!(is_json(Some("text/json")));
    assert!(!is_json(Some("text/html")));
    assert!(!is_json(Some("application/vnd.api+json")));
    assert!(!is_json(Some("not a media type")));
    assert!(!is_json(Some("")));
    assert!(!is_json(None));
}

#[test]
fn json_is_pretty_printed() {
    assert_eq!(
        body_text(true, "{\"a\":1,\"b\":2}"),
        Ok("{\n  \"a\": 1,\n  \"b\": 2\n}".to_string())
    );
    assert_eq!(
        body_text(true, "{\"empty\":{},\n\n\n\n\n\"one\":[1]}"),
        Ok("{\n  \"empty\": {},\n  \"one\": [\n    1\n  ]\n}".to_string())
    );
}

#[test]
fn other_bodies_are_shown_as_they_came() {
    assert_eq!(body_text(false, "{\"a\":1}"), Ok("{\"a\":1}".to_string()));
    assert_eq!(body_text(false, "<p>hello</p>\n"), Ok("<p>hello</p>\n".to_string()));
    assert_eq!(body_text(false, ""), Ok(String::new()));
}
