use secure_sum::url::Url;

#[test]
fn without_protocol_is_as_expected() {
    assert_eq!(
        Url("aunovis.de".to_string()).str_without_protocol(),
        "aunovis.de"
    );
    assert_eq!(
        Url("http://aunovis.de".to_string()).str_without_protocol(),
        "aunovis.de"
    );
    assert_eq!(
        Url("https://aunovis.de".to_string()).str_without_protocol(),
        "aunovis.de"
    );
}

#[test]
fn repeated_protocol_marks_are_all_removed() {
    assert_eq!(
        Url("http://http://aunovis.de".to_string()).str_without_protocol(),
        "aunovis.de"
    );
    assert_eq!(
        Url("https://https://aunovis.de".to_string()).str_without_protocol(),
        "aunovis.de"
    );
}
