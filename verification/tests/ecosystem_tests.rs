use secure_sum::ecosystem::{
    extract_repo_url, try_parse_all_ecosystems, CargoToml, Csproj, CsprojElement, DepFile,
    ItemGroup, PackageJson,
};
use secure_sum::error::Error;

fn item_group(includes: &[&str]) -> CsprojElement {
    CsprojElement::ItemGroup(ItemGroup {
        package_references: includes.iter().map(|i| i.to_string()).collect(),
    })
}

#[test]
fn csproj_with_several_item_groups_can_be_parsed() {
    let depfile = Csproj {
        elements: vec![
            item_group(&["Microsoft.SourceLink.GitHub"]),
            item_group(&["System.Xml.XPath.XmlDocument"]),
        ],
    };
    assert_eq!(depfile.elements.len(), 2);
    assert_eq!(depfile.first_level_deps().len(), 2);
}

#[test]
fn csproj_with_separated_item_groups_can_be_parsed() {
    let depfile = Csproj {
        elements: vec![
            item_group(&[
                "Microsoft.CodeAnalysis.NetAnalyzers",
                "Microsoft.SourceLink.GitHub",
            ]),
            CsprojElement::Other,
            item_group(&[
                "System.Runtime.Serialization.Formatters",
                "System.Xml.XmlDocument",
            ]),
        ],
    };
    assert_eq!(depfile.elements.len(), 3);
    assert_eq!(depfile.first_level_deps().len(), 4, "{:#?}", depfile);
}

#[test]
fn repo_urls_are_extracted_from_git_clone_arguments() {
    let url = extract_repo_url("git+https://github.com/handlebars-lang/handlebars.js.git");
    assert_eq!(url.0, "https://github.com/handlebars-lang/handlebars.js");

    let url = extract_repo_url("git@github.com/serde-rs/serde");
    assert_eq!(url.0, "https://github.com/serde-rs/serde");

    let url = extract_repo_url("https://github.com/aunovis/secure_sum");
    assert_eq!(url.0, "https://github.com/aunovis/secure_sum");
}

#[test]
fn format_priority_picks_the_first_decoder_that_succeeded() {
    let cargo = CargoToml {
        dependencies: vec!["serde".to_string()],
    };
    let package_json = PackageJson {
        dependencies: vec!["handlebars".to_string()],
    };

    let picked = try_parse_all_ecosystems(
        "Cargo.toml",
        Some(cargo.clone()),
        None,
        Some(package_json.clone()),
        None,
    )
    .unwrap();
    assert_eq!(picked, DepFile::CargoToml(cargo));

    let picked =
        try_parse_all_ecosystems("package.json", None, None, Some(package_json.clone()), None)
            .unwrap();
    assert_eq!(picked, DepFile::PackageJson(package_json));

    let error = try_parse_all_ecosystems("mystery.bin", None, None, None, None).unwrap_err();
    assert!(
        matches!(error, Error::Other(m) if m == "Could not parse mystery.bin as a dependency file.")
    );
}
