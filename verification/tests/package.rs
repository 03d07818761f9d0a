use workspace_deps::dependency::{Dependency, Version};
use workspace_deps::package::{read_dependencies, Package};
use workspace_deps::value::Toml;
use workspace_deps::workspace_dependency::Error;

fn string(s: &str) -> Toml {
    Toml::String(s.to_string())
}

fn fields(entries: Vec<(&str, Toml)>) -> Toml {
    Toml::Table(entries.into_iter().map(|(k, v)| (k.to_string(), v)).collect())
}

fn dependency(name: &str, version: Version) -> Dependency {
    Dependency { name: name.to_string(), version }
}

#[test]
fn a_manifest_gives_name_and_both_tables() {
    let text = "[package]\nname = \"a\"\nversion = \"0.1.0\"\n\n[dependencies]\nserde = \"1.0\"\nfoo = { path = \"../foo\" }\nbar = { workspace = true }\n\n[dev-dependencies]\nbaz = { git = \"https://example.org/baz\", branch = \"main\" }\n";
    let package = Package::try_from(text).unwrap();
    assert_eq!(package.name, "a");
    assert_eq!(package.dependencies.len(), 3);
    assert_eq!(
        package.dependencies.get("serde"),
        Some(&dependency("serde", Version::Value("1.0".to_string())))
    );
    assert_eq!(
        package.dependencies.get("foo"),
        Some(&dependency("foo", Version::Path("../foo".to_string())))
    );
    assert_eq!(package.dependencies.get("bar"), Some(&dependency("bar", Version::Workspace)));
    assert_eq!(package.dev_dependencies.len(), 1);
    assert_eq!(
        package.dev_dependencies.get("baz"),
        Some(&dependency(
            "baz",
            Version::GitBranch("https://example.org/baz".to_string(), "main".to_string())
        ))
    );
    assert_eq!(package.dev_dependencies.get("serde"), None);
}

#[test]
fn missing_tables_are_empty() {
    let package = Package::try_from("[package]\nname = \"solo\"\n").unwrap();
    assert_eq!(package.name, "solo");
    assert_eq!(package.dependencies.len(), 0);
    assert_eq!(package.dev_dependencies.len(), 0);
}

#[test]
fn a_name_may_stand_in_both_tables() {
    let text = "[package]\nname = \"a\"\n[dependencies]\nserde = \"1.0\"\n[dev-dependencies]\nserde = { path = \"../serde\" }\n";
    let package = Package::try_from(text).unwrap();
    assert_eq!(
        package.dependencies.get("serde").map(|d| &d.version),
        Some(&Version::Value("1.0".to_string()))
    );
    assert_eq!(
        package.dev_dependencies.get("serde").map(|d| &d.version),
        Some(&Version::Path("../serde".to_string()))
    );
}

#[test]
fn a_manifest_without_package_is_refused() {
    let text = "[dependencies]\nserde = \"1.0\"\n";
    let document = Toml::parse(text).unwrap();
    assert_eq!(
        Package::try_from(text).err(),
        Some(Error::PropertyNotFound("package".to_string(), document))
    );
}

#[test]
fn a_package_that_is_no_table_is_refused() {
    let document = fields(vec![("package", string("a"))]);
    assert_eq!(
        Package::from_document(&document).err(),
        Some(Error::PropertyNotFound("package".to_string(), document.clone()))
    );
}

#[test]
fn a_package_without_name_is_refused() {
    let text = "[package]\nversion = \"0.1.0\"\n";
    assert_eq!(
        Package::try_from(text).err(),
        Some(Error::PropertyNotFound(
            "name".to_string(),
            fields(vec![("version", string("0.1.0"))])
        ))
    );
}

#[test]
fn a_name_that_is_no_string_is_refused() {
    let text = "[package]\nname = 7\n";
    assert_eq!(
        Package::try_from(text).err(),
        Some(Error::PropertyNotFound("name".to_string(), fields(vec![("name", Toml::Integer(7))])))
    );
}

#[test]
fn a_manifest_that_is_no_table_is_refused() {
    assert_eq!(
        Package::from_document(&string("a")).err(),
        Some(Error::PackageUnexpectedValue(string("a")))
    );
    assert_eq!(
        Package::from_document(&Toml::Array(Vec::new())).err(),
        Some(Error::PackageUnexpectedValue(Toml::Array(Vec::new())))
    );
}

#[test]
fn a_manifest_that_is_no_toml_is_refused() {
    assert!(matches!(Package::try_from("[package\nname = "), Err(Error::TomlParse(_))));
}

#[test]
fn a_bad_dependency_is_the_error_of_the_package() {
    let text = "[package]\nname = \"a\"\n[dependencies]\nserde = 1\n";
    assert_eq!(
        Package::try_from(text).err(),
        Some(Error::DependencyUnexpectedValue(Toml::Integer(1)))
    );
    let text = "[package]\nname = \"a\"\n[dev-dependencies]\nserde = { features = [\"derive\"] }\n";
    assert_eq!(
        Package::try_from(text).err(),
        Some(Error::InvalidVersion(fields(vec![(
            "features",
            Toml::Array(vec![string("derive")])
        )])))
    );
}

#[test]
fn the_name_is_asked_for_before_the_dependencies() {
    let text = "[package]\nversion = \"1\"\n[dependencies]\nserde = 1\n";
    assert_eq!(
        Package::try_from(text).err(),
        Some(Error::PropertyNotFound("name".to_string(), fields(vec![("version", string("1"))])))
    );
}

#[test]
fn dependencies_fail_before_dev_dependencies() {
    let text = "[package]\nname = \"a\"\n[dev-dependencies]\naaa = 1\n[dependencies]\nzzz = true\n";
    assert_eq!(
        Package::try_from(text).err(),
        Some(Error::DependencyUnexpectedValue(Toml::Boolean(true)))
    );
}

#[test]
fn the_first_bad_entry_decides() {
    let manifest = fields(vec![(
        "dependencies",
        fields(vec![
            ("good", string("1.0")),
            ("bad", Toml::Integer(1)),
            ("worse", Toml::Boolean(false)),
        ]),
    )]);
    assert_eq!(
        read_dependencies(&manifest, "dependencies").err(),
        Some(Error::DependencyUnexpectedValue(Toml::Integer(1)))
    );
}

#[test]
fn a_table_that_is_none_holds_no_dependencies() {
    let manifest = fields(vec![("dependencies", string("none"))]);
    assert_eq!(read_dependencies(&manifest, "dependencies").unwrap().len(), 0);
    assert_eq!(read_dependencies(&manifest, "dev-dependencies").unwrap().len(), 0);
    assert_eq!(read_dependencies(&string("x"), "dependencies").unwrap().len(), 0);
}

#[test]
fn of_two_entries_with_one_name_the_later_counts() {
    let manifest = fields(vec![(
        "dependencies",
        fields(vec![("serde", string("1.0")), ("serde", string("2.0"))]),
    )]);
    let table = read_dependencies(&manifest, "dependencies").unwrap();
    assert_eq!(table.len(), 1);
    assert_eq!(
        table.get("serde"),
        Some(&dependency("serde", Version::Value("2.0".to_string())))
    );
}
