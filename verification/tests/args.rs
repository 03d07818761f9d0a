use workspace_deps::args::OutputFormat;
use workspace_deps::workspace_dependency::Error;

#[test]
fn mixed_case_json_is_json() {
    assert_eq!(OutputFormat::from_str("JSON"), Ok(OutputFormat::JSON));
    assert_eq!(OutputFormat::from_str("Json"), Ok(OutputFormat::JSON));
    assert_eq!(OutputFormat::from_str("json"), Ok(OutputFormat::JSON));
    assert_eq!(OutputFormat::from_str("JSON"), OutputFormat::from_str("json"));
}

#[test]
fn text_in_any_case_is_text() {
    assert_eq!(OutputFormat::from_str("text"), Ok(OutputFormat::Text));
    assert_eq!(OutputFormat::from_str("TEXT"), Ok(OutputFormat::Text));
    assert_eq!(OutputFormat::from_str("tExT"), Ok(OutputFormat::Text));
}

#[test]
fn yaml_is_no_output_format() {
    assert_eq!(
        OutputFormat::from_str("yaml"),
        Err(Error::InvalidOutputFormat("yaml".to_string()))
    );
}

#[test]
fn the_error_holds_the_name_in_lower_case() {
    assert_eq!(
        OutputFormat::from_str("YAML"),
        Err(Error::InvalidOutputFormat("yaml".to_string()))
    );
    assert_eq!(
        OutputFormat::from_str(""),
        Err(Error::InvalidOutputFormat(String::new()))
    );
}

#[test]
fn from_lowercase_takes_the_name_as_it_stands() {
    assert_eq!(OutputFormat::from_lowercase("json"), Ok(OutputFormat::JSON));
    assert_eq!(OutputFormat::from_lowercase("text"), Ok(OutputFormat::Text));
    assert_eq!(
        OutputFormat::from_lowercase("JSON"),
        Err(Error::InvalidOutputFormat("JSON".to_string()))
    );
    assert_eq!(
        OutputFormat::from_lowercase("json "),
        Err(Error::InvalidOutputFormat("json ".to_string()))
    );
}

#[test]
fn the_default_format_is_text() {
    assert_eq!(OutputFormat::default(), OutputFormat::Text);
}
