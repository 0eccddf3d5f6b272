use secure_sum::probe_name::ProbeName;

#[test]
fn display_is_as_expected() {
    assert_eq!(ProbeName::archived.as_str(), "archived");
}

#[test]
fn names_resolve_back_to_their_probe() {
    assert_eq!(ProbeName::from_str("archived"), Some(ProbeName::archived));
    assert_eq!(
        ProbeName::from_str("hasOSVVulnerabilities"),
        Some(ProbeName::hasOSVVulnerabilities)
    );
    assert_eq!(
        ProbeName::from_str("webhooksUseSecrets"),
        Some(ProbeName::webhooksUseSecrets)
    );
    assert_eq!(ProbeName::from_str("Archived"), None);
    assert_eq!(ProbeName::from_str(""), None);
}
