use secure_sum::error::Error;
use secure_sum::input::{is_url, Input};

#[test]
fn input_protocols_mark_urls() {
    assert!(is_url("https://quettapano"));
    assert!(is_url("http://andolama/mirquet"));
    assert!(!is_url("cimrinora/arquenie"));
}

#[test]
fn parse_accepts_urls_and_rejects_the_rest() {
    let parsed = Input::parse("https://example.com".to_string()).unwrap();
    assert!(matches!(parsed, Input::Url(u) if u == "https://example.com"));

    let error = Input::parse("not-a-url".to_string()).unwrap_err();
    assert!(matches!(error, Error::Input(m) if m == "Unable to understand not-a-url"));
}
