use cigen::models::{Command, Job};
use cigen::validation::data::span_finder::{SpanFinder, SpanInfo, SpannedYaml, SpannedValue};
use cigen::validation::error_reporter::SpannedValidator;
use cigen::validation::steps::StepValidator;
use cigen::validation::validator::Validator;
use cigen::yaml::YamlValue;

fn job_with_steps(steps: Vec<YamlValue>) -> Job {
    let mut job = Job::new("cimg/base".to_string());
    job.steps = Some(steps);
    job
}

fn str_node(start: usize, end: usize, s: &str) -> SpannedYaml {
    SpannedYaml { start, end, value: SpannedValue::Str(s.to_string()) }
}

#[test]
fn validation_test_validator_creation() {
    let validator = Validator::new();
    assert!(validator.is_ok());
}

#[test]
fn tests_test_validator_creation() {
    let validator = Validator::new();
    assert!(validator.is_ok());
}

#[test]
fn test_valid_builtin_step() {
    let validator = StepValidator::new();
    let jobs = vec![("test".to_string(), job_with_steps(vec![YamlValue::Str("checkout".to_string())]))];
    let commands: Vec<(String, Command)> = Vec::new();

    let result = validator.validate_step_references(&jobs, &commands, "circleci");
    assert!(result.is_ok(), "{:?}", result);
}

#[test]
fn test_missing_command() {
    let validator = StepValidator::new();
    let jobs = vec![(
        "test".to_string(),
        job_with_steps(vec![YamlValue::Str("nonexistent_command".to_string())]),
    )];
    let commands: Vec<(String, Command)> = Vec::new();

    let result = validator.validate_step_references(&jobs, &commands, "circleci");
    assert!(result.is_err());
    let err = result.unwrap_err();
    assert!(err.contains("nonexistent_command"));
    assert!(err.contains("not defined"));
}

#[test]
fn test_valid_user_command() {
    let validator = StepValidator::new();
    let commands = vec![(
        "my_command".to_string(),
        Command { description: "Test command".to_string(), parameters: None, steps: vec![] },
    )];
    let jobs = vec![("test".to_string(), job_with_steps(vec![YamlValue::Str("my_command".to_string())]))];

    let result = validator.validate_step_references(&jobs, &commands, "circleci");
    assert!(result.is_ok());
}

#[test]
fn step_errors_are_collected_with_numbers() {
    let validator = StepValidator::new();
    let commands: Vec<(String, Command)> = Vec::new();
    let jobs = vec![(
        "build".to_string(),
        job_with_steps(vec![
            YamlValue::Str("run".to_string()),
            YamlValue::Int(3),
            YamlValue::Mapping(vec![(YamlValue::Str("mystery".to_string()), YamlValue::Null)]),
            YamlValue::Mapping(vec![(YamlValue::Str("org/orb-step".to_string()), YamlValue::Null)]),
            YamlValue::Mapping(vec![(YamlValue::Str("commit_and_push_changed_files".to_string()), YamlValue::Null)]),
            YamlValue::Str("continue_circleci_pipeline".to_string()),
        ]),
    )];
    let err = validator.validate_step_references(&jobs, &commands, "circleci").unwrap_err();
    assert_eq!(
        err,
        "Step validation errors:\nJob 'build' step 2: invalid step format\nJob 'build' step 3: unknown step type 'mystery'"
    );
    assert!(validator.validate_step_references(&jobs, &commands, "github-actions").is_ok());
}

#[test]
fn span_finder_finds_fields_items_and_cache_references() {
    let root = SpannedYaml {
        start: 0,
        end: 100,
        value: SpannedValue::Mapping(vec![
            (
                str_node(0, 8, "services"),
                SpannedYaml { start: 10, end: 30, value: SpannedValue::Sequence(vec![str_node(12, 17, "redis"), str_node(20, 28, "postgres")]) },
            ),
            (
                str_node(31, 44, "restore_cache"),
                SpannedYaml {
                    start: 45,
                    end: 90,
                    value: SpannedValue::Sequence(vec![
                        str_node(47, 51, "gems"),
                        SpannedYaml {
                            start: 55,
                            end: 80,
                            value: SpannedValue::Mapping(vec![(str_node(57, 61, "name"), str_node(63, 67, "node"))]),
                        },
                    ]),
                },
            ),
        ]),
    };
    let finder = SpanFinder::new(&root);
    assert_eq!(finder.find_field_span(&vec!["services"]), Some(SpanInfo { start: 10, end: 30 }));
    assert_eq!(finder.find_field_span(&vec!["missing"]), None);
    assert_eq!(finder.find_array_item_span(&vec!["services"], "postgres"), Some(SpanInfo { start: 20, end: 28 }));
    assert_eq!(finder.find_array_item_span(&vec!["services"], "mysql"), None);
    assert_eq!(finder.find_cache_reference_span("gems"), Some(SpanInfo { start: 47, end: 51 }));
    assert_eq!(finder.find_cache_reference_span("node"), Some(SpanInfo { start: 63, end: 67 }));
    assert_eq!(finder.find_cache_reference_span("other"), None);
}

#[test]
fn spanned_validator_strips_spans_and_points_errors() {
    let source = "provider: circleci\njobs:\n  - 7\n  - image: ruby\n";
    let v = SpannedValidator::new("config.yml".to_string(), source.to_string()).unwrap();
    let expected = YamlValue::Mapping(vec![
        (YamlValue::Str("provider".to_string()), YamlValue::Str("circleci".to_string())),
        (
            YamlValue::Str("jobs".to_string()),
            YamlValue::Sequence(vec![
                YamlValue::Int(7),
                YamlValue::Mapping(vec![(YamlValue::Str("image".to_string()), YamlValue::Str("ruby".to_string()))]),
            ]),
        ),
    ]);
    assert_eq!(v.get_json_value(), &expected);
    let text = |p: &str| {
        let span = v.span_for(p);
        source[span.start..span.end].to_string()
    };
    assert_eq!(text("/jobs/1/image"), "ruby");
    assert_eq!(text("/jobs/0"), "7");
    assert_eq!(text("/provider"), "circleci");
    // an unknown pointer falls back to the whole document
    assert_eq!(v.span_for("/nowhere").start, 0);
    let e = v.create_error("/jobs/1/image", "bad image".to_string());
    assert_eq!(e.source_name, "config.yml");
    assert_eq!(e.source_code, source);
    assert_eq!(&source[e.offset..e.offset + e.length], "ruby");
    assert_eq!(e.message, "bad image");
    assert!(SpannedValidator::new("x.yml".to_string(), "a: [1, 2".to_string()).is_err());
}

#[test]
fn spanned_documents_read_numbers_by_their_text() {
    let source = "a: -3\nb: 1.5\nc: 18446744073709551615\n";
    let v = SpannedValidator::new("n.yml".to_string(), source.to_string()).unwrap();
    let expected = YamlValue::Mapping(vec![
        (YamlValue::Str("a".to_string()), YamlValue::Int(-3)),
        (YamlValue::Str("b".to_string()), YamlValue::Real("1.5".to_string())),
        (YamlValue::Str("c".to_string()), YamlValue::Int(18446744073709551615)),
    ]);
    assert_eq!(v.get_json_value(), &expected);
}
