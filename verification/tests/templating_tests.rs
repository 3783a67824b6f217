use cigen::templating::engine::{get_variable_value, is_template_file, preprocess_includes, render_string_variables_only};
use cigen::templating::error::{extract_error_info, line_to_offset, ErrorInfo, ErrorSpan, TemplateError, TemplateErrorKind};
use cigen::templating::variables::VariableResolver;
use cigen::yaml::YamlValue;

fn s(v: &str) -> YamlValue {
    YamlValue::Str(v.to_string())
}

#[test]
fn test_variable_precedence() {
    let mut resolver = VariableResolver::new();

    let vars_section = vec![
        ("test_var".to_string(), s("from_vars")),
        ("only_in_vars".to_string(), s("vars_only")),
    ];
    resolver.add_vars_section(&vars_section);

    let cli_vars = vec![
        ("test_var".to_string(), "from_cli".to_string()),
        ("only_in_cli".to_string(), "cli_only".to_string()),
    ];
    resolver.add_cli_vars(&cli_vars);

    assert_eq!(resolver.get_variable("test_var"), Some(&s("from_cli")));
    assert_eq!(resolver.get_variable("only_in_vars"), Some(&s("vars_only")));
    assert_eq!(resolver.get_variable("only_in_cli"), Some(&s("cli_only")));
}

#[test]
fn env_vars_sit_between_vars_and_cli() {
    let mut resolver = VariableResolver::new();
    resolver.add_vars_section(&vec![("test_var".to_string(), s("from_vars")), ("a".to_string(), s("vars"))]);
    resolver.add_env_vars(&vec![
        ("CIGEN_VAR_TEST_VAR".to_string(), "from_env".to_string()),
        ("CIGEN_VAR_A".to_string(), "env".to_string()),
        ("OTHER".to_string(), "ignored".to_string()),
    ]);
    assert_eq!(resolver.get_variable("test_var"), Some(&s("from_env")));
    assert_eq!(resolver.get_variable("other"), None);
    resolver.add_cli_vars(&vec![("a".to_string(), "cli".to_string())]);
    assert_eq!(resolver.get_variable("a"), Some(&s("cli")));
    assert_eq!(resolver.get_variables().len(), 2);
}

#[test]
fn test_empty_resolver() {
    let resolver = VariableResolver::new();
    assert_eq!(resolver.get_variable("nonexistent"), None);
    assert!(resolver.get_variables().is_empty());
}

#[test]
fn test_is_template_file() {
    assert!(is_template_file("config.yml.j2"));
    assert!(is_template_file("jobs/test.yaml.j2"));
    assert!(!is_template_file("config.yml"));
    assert!(!is_template_file("jobs/test.yaml"));
    assert!(!is_template_file("config"));
}

#[test]
fn variable_texts() {
    let mut resolver = VariableResolver::new();
    resolver.add_vars_section(&vec![
        ("n".to_string(), YamlValue::Int(-42)),
        ("b".to_string(), YamlValue::Bool(true)),
        ("l".to_string(), YamlValue::Sequence(vec![])),
        ("name".to_string(), s("app")),
    ]);
    assert_eq!(get_variable_value(&resolver, "n"), Some("-42".to_string()));
    assert_eq!(get_variable_value(&resolver, "b"), Some("true".to_string()));
    assert_eq!(get_variable_value(&resolver, "l"), None);
    assert_eq!(get_variable_value(&resolver, "missing"), None);
    assert_eq!(
        render_string_variables_only(&resolver, "{{ name }}-{{n}} {{ missing }} {{ name | upper }}"),
        "app--42 {{ missing }} {{ name | upper }}"
    );
}

#[test]
fn includes_are_expanded_nested() {
    let templates = vec![
        ("outer".to_string(), "A {% include \"inner\" %} B".to_string()),
        ("inner".to_string(), "inner text".to_string()),
    ];
    assert_eq!(
        preprocess_includes(&templates, "x {% include \"outer\" %} y {% include \"nope\" %}"),
        "x A inner text B y {% include \"nope\" %}"
    );
}

#[test]
fn line_offsets_count_bytes() {
    let source = "ab\n\u{e9}c\nd";
    assert_eq!(line_to_offset(source, 0), 0);
    assert_eq!(line_to_offset(source, 1), 3);
    assert_eq!(line_to_offset(source, 2), 7);
    assert_eq!(line_to_offset(source, 5), 8);
}

#[test]
fn error_info_reasons_and_help() {
    let info = ErrorInfo {
        kind: TemplateErrorKind::UndefinedError,
        detail: Some("foo".to_string()),
        line: Some(2),
        range: None,
        display: "undefined value".to_string(),
    };
    let (span, reason, help) = extract_error_info(&info, "a\nb\n");
    assert_eq!(span, Some(ErrorSpan { offset: 2, length: 0 }));
    assert_eq!(reason, "undefined variable: foo");
    assert!(help.unwrap().contains("CIGEN_VAR_<NAME>"));

    let info = ErrorInfo {
        kind: TemplateErrorKind::SyntaxError,
        detail: None,
        line: Some(1),
        range: Some((3, 7)),
        display: String::new(),
    };
    let (span, reason, _) = extract_error_info(&info, "abcdefgh");
    assert_eq!(span, Some(ErrorSpan { offset: 3, length: 4 }));
    assert_eq!(reason, "syntax error: invalid syntax");

    let info = ErrorInfo {
        kind: TemplateErrorKind::Other,
        detail: None,
        line: None,
        range: None,
        display: "something else".to_string(),
    };
    let (span, reason, help) = extract_error_info(&info, "");
    assert_eq!(span, None);
    assert_eq!(reason, "something else");
    assert_eq!(help, None);
}

#[test]
fn template_errors_take_kind_and_detail_from_the_rendering_error() {
    let err = minijinja::Error::new(minijinja::ErrorKind::UndefinedError, "missing_var");
    let te = TemplateError::from_minijinja_error(err, "a: {{ missing_var }}".to_string(), "job.yml");
    assert_eq!(te.source_name, "job.yml");
    assert_eq!(te.source_text, "a: {{ missing_var }}");
    assert_eq!(te.reason, "undefined variable: missing_var");
    assert!(te.help.unwrap().starts_with("Make sure this variable is defined in:"));
    assert!(te.span.is_none());
    assert!(te.source.is_some());

    let err = minijinja::Error::new(minijinja::ErrorKind::SyntaxError, "unexpected end");
    let te = TemplateError::from_minijinja_error(err, String::new(), "x.yml");
    assert_eq!(te.reason, "syntax error: unexpected end");
    assert_eq!(te.help.as_deref(), Some("Check the MiniJinja template syntax at https://docs.rs/minijinja/"));
}
