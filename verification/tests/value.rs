use workspace_deps::value::Toml;
use workspace_deps::workspace_dependency::Error;

fn text(s: &str) -> Toml {
    Toml::String(s.to_string())
}

fn table(entries: Vec<(&str, Toml)>) -> Toml {
    Toml::Table(entries.into_iter().map(|(k, v)| (k.to_string(), v)).collect())
}

#[test]
fn parse_reads_a_document_as_a_table() {
    let parsed = Toml::parse("name = \"a\"\nedition = 2021\nlocal = true\n");
    assert_eq!(
        parsed,
        Ok(table(vec![
            ("edition", Toml::Integer(2021)),
            ("local", Toml::Boolean(true)),
            ("name", text("a")),
        ]))
    );
}

#[test]
fn parse_reads_nested_tables_and_arrays() {
    let parsed = Toml::parse("[workspace]\nmembers = [\"a\", \"crates/*\"]\n");
    assert_eq!(
        parsed,
        Ok(table(vec![(
            "workspace",
            table(vec![("members", Toml::Array(vec![text("a"), text("crates/*")]))])
        )]))
    );
}

#[test]
fn parse_reads_inline_tables() {
    let parsed = Toml::parse("[dependencies]\nfoo = { path = \"../foo\" }\n");
    assert_eq!(
        parsed,
        Ok(table(vec![(
            "dependencies",
            table(vec![("foo", table(vec![("path", text("../foo"))]))])
        )]))
    );
}

#[test]
fn parse_keeps_floats_as_bits_and_dates_as_text() {
    let parsed = Toml::parse("ratio = 1.5\nsince = 1979-05-27T07:32:00Z\n");
    assert_eq!(
        parsed,
        Ok(table(vec![
            ("ratio", Toml::Float(1.5f64.to_bits())),
            ("since", Toml::Datetime("1979-05-27T07:32:00Z".to_string())),
        ]))
    );
}

#[test]
fn parse_of_an_empty_text_is_an_empty_table() {
    assert_eq!(Toml::parse(""), Ok(Toml::Table(Vec::new())));
}

#[test]
fn parse_refuses_what_is_no_toml() {
    assert!(matches!(Toml::parse("name = "), Err(Error::TomlParse(_))));
    assert!(matches!(Toml::parse("[package"), Err(Error::TomlParse(_))));
    assert!(matches!(
        Toml::parse("a = 1\na = 2\n"),
        Err(Error::TomlParse(_))
    ));
}

#[test]
fn the_parse_error_holds_a_message() {
    match Toml::parse("name = ") {
        Err(Error::TomlParse(message)) => assert!(!message.is_empty()),
        other => panic!("unexpected {:?}", other),
    }
}

#[test]
fn get_finds_the_value_under_a_key() {
    let value = table(vec![("a", Toml::Integer(1)), ("b", Toml::Integer(2))]);
    assert_eq!(value.get("a"), Some(&Toml::Integer(1)));
    assert_eq!(value.get("b"), Some(&Toml::Integer(2)));
    assert_eq!(value.get("c"), None);
    assert_eq!(value.get(""), None);
}

#[test]
fn get_takes_the_later_of_two_entries_with_one_key() {
    let value = table(vec![
        ("a", Toml::Integer(1)),
        ("b", Toml::Integer(2)),
        ("a", Toml::Integer(3)),
    ]);
    assert_eq!(value.get("a"), Some(&Toml::Integer(3)));
}

#[test]
fn get_on_what_is_no_table_finds_nothing() {
    assert_eq!(text("a").get("a"), None);
    assert_eq!(Toml::Integer(1).get("a"), None);
    assert_eq!(Toml::Array(vec![text("a")]).get("a"), None);
}

#[test]
fn get_string_wants_a_string() {
    let value = table(vec![("a", text("x")), ("b", Toml::Integer(2))]);
    assert_eq!(value.get_string("a"), Some(&"x".to_string()));
    assert_eq!(value.get_string("b"), None);
    assert_eq!(value.get_string("c"), None);
}

#[test]
fn clone_copies_the_whole_value() {
    let value = table(vec![
        ("name", text("a")),
        ("n", Toml::Integer(-7)),
        ("x", Toml::Float(2.5f64.to_bits())),
        ("t", Toml::Datetime("1979-05-27".to_string())),
        (
            "list",
            Toml::Array(vec![Toml::Boolean(true), table(vec![("k", text("v"))])]),
        ),
    ]);
    assert_eq!(value.clone(), value);
}
