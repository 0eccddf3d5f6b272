use secure_sum::ecosystem::{DepFile, Ecosystem, PackageJson};
use secure_sum::error::Error;
use secure_sum::target::{collect_single_targets, is_url, SingleTarget, Target};
use secure_sum::url::Url;

fn node_js_depfile(dependencies: &[&str]) -> DepFile {
    DepFile::PackageJson(PackageJson {
        dependencies: dependencies.iter().map(|d| d.to_string()).collect(),
    })
}

#[test]
fn target_protocols_mark_urls() {
    assert!(is_url("https://quettapano"));
    assert!(is_url("http://andolama/mirquet"));
    assert!(!is_url("cimrinora/arquenie"));
}

#[test]
fn collect_single_targets_combines_dependencies() {
    let file_1 = node_js_depfile(&["@xenova/transformers"]);
    let file_2 = node_js_depfile(&["handlebars"]);
    let targets = vec![
        Target::DepFile(String::new(), file_1),
        Target::DepFile(String::new(), file_2),
    ];

    let single_targets = collect_single_targets(targets);

    let mut expected = vec![
        SingleTarget::Package("@xenova/transformers".to_string(), Ecosystem::NodeJs),
        SingleTarget::Package("handlebars".to_string(), Ecosystem::NodeJs),
    ];
    expected.sort();
    assert_eq!(single_targets, expected);
}

#[test]
fn collect_single_targets_can_mix_and_match_depfiles_and_urls() {
    let file = node_js_depfile(&["handlebars"]);
    let url = "https://github/somethingsomething";
    let targets = vec![
        Target::DepFile(String::new(), file),
        Target::Url(Url(url.to_string())),
    ];

    let single_targets = collect_single_targets(targets);

    let mut expected = vec![
        SingleTarget::Package("handlebars".to_string(), Ecosystem::NodeJs),
        SingleTarget::Url(Url(url.to_string())),
    ];
    expected.sort();
    assert_eq!(single_targets, expected);
}

#[test]
fn collect_single_targets_dedups_the_output() {
    let file_1 = node_js_depfile(&["@xenova/transformers"]);
    let file_2 = node_js_depfile(&["handlebars"]);
    let file_3 = node_js_depfile(&["handlebars"]);
    let targets = vec![
        Target::DepFile(String::new(), file_1),
        Target::DepFile(String::new(), file_2),
        Target::DepFile(String::new(), file_3),
    ];

    let single_targets = collect_single_targets(targets);

    let mut expected = vec![
        SingleTarget::Package("@xenova/transformers".to_string(), Ecosystem::NodeJs),
        SingleTarget::Package("handlebars".to_string(), Ecosystem::NodeJs),
    ];
    expected.sort();
    assert_eq!(single_targets, expected);
}

#[test]
fn target_parse_classifies_inputs() {
    let parsed = Target::parse("https://example.com".to_string(), None).unwrap();
    assert!(matches!(parsed, Target::Url(u) if u.0 == "https://example.com"));

    let depfile = node_js_depfile(&["handlebars"]);
    let parsed = Target::parse("package.json".to_string(), Some(depfile.clone())).unwrap();
    assert!(matches!(parsed, Target::DepFile(path, d) if path == "package.json" && d == depfile));

    let error = Target::parse("mystery".to_string(), None).unwrap_err();
    assert!(matches!(error, Error::Input(m) if m == "Unable to understand mystery"));
}

#[test]
fn to_scorecard_arg_selects_per_target() {
    let url = SingleTarget::Url(Url("https://github.com/aunovis/secure_sum".to_string()));
    assert_eq!(
        url.to_scorecard_arg(None).unwrap(),
        "--repo=https://github.com/aunovis/secure_sum"
    );

    let npm = SingleTarget::Package("handlebars".to_string(), Ecosystem::NodeJs);
    assert_eq!(npm.to_scorecard_arg(None).unwrap(), "--npm=handlebars");

    let nuget = SingleTarget::Package("Microsoft.Guardian.Cli".to_string(), Ecosystem::NuGet);
    assert_eq!(
        nuget.to_scorecard_arg(None).unwrap(),
        "--nuget=Microsoft.Guardian.Cli"
    );

    let resolved = Url("https://github.com/serde-rs/serde".to_string());
    let rust = SingleTarget::Package("serde".to_string(), Ecosystem::Rust);
    assert_eq!(
        rust.to_scorecard_arg(Some(&resolved)).unwrap(),
        "--repo=https://github.com/serde-rs/serde"
    );
    let error = rust.to_scorecard_arg(None).unwrap_err();
    assert!(matches!(error, Error::Other(m) if m == "Could not obtain repo for crate serde"));
}
