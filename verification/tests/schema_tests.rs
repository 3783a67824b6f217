use cigen::schema::config::extract_mapping;
use cigen::yaml::YamlValue;
use cigen::schema::config::{default_cache_backend, CacheBackend, CigenConfig, ConfigError};
use cigen::schema::job::{packages_from_value, source_files_from_value, Job, PackagesError};
use cigen::schema::workflow::{WorkflowCondition, WorkflowConditionKind, WorkflowConfig};

fn job_needing(needs: &[&str]) -> Job {
    let mut job = Job::default();
    job.needs = needs.iter().map(|s| s.to_string()).collect();
    job
}

fn condition(provider: &str) -> WorkflowCondition {
    WorkflowCondition {
        provider: Some(provider.to_string()),
        parameter: None,
        variable: None,
        env: None,
        expression: None,
        equals: None,
        extra: Vec::new(),
    }
}

fn base_config(run_when: WorkflowCondition) -> CigenConfig {
    let mut config = CigenConfig::default();
    config.providers = vec!["github".to_string()];
    config.jobs = vec![("build".to_string(), Job::default())];
    let mut workflow = WorkflowConfig::default();
    workflow.run_when = vec![run_when];
    config.workflows = vec![("main".to_string(), workflow)];
    config
}

#[test]
fn test_validation_missing_jobs() {
    let config = CigenConfig::default();
    let result = config.validate();
    assert!(result.is_err());
    assert!(result.unwrap_err().message().contains("at least one job"));
}

#[test]
fn test_validation_unknown_job_reference() {
    let mut config = CigenConfig::default();
    config.jobs = vec![("test".to_string(), job_needing(&["nonexistent"]))];
    let result = config.validate();
    assert!(result.is_err());
    assert!(result.unwrap_err().message().contains("unknown job 'nonexistent'"));
}

#[test]
fn test_validation_self_reference() {
    let mut config = CigenConfig::default();
    config.jobs = vec![("test".to_string(), job_needing(&["test"]))];
    let result = config.validate();
    assert!(result.is_err());
    assert!(result.unwrap_err().message().contains("cannot depend on itself"));
}

#[test]
fn github_parameter_conditions_are_rejected() {
    let mut c = condition("github");
    c.parameter = Some("run_docs".to_string());
    assert!(base_config(c).validate().is_err());
}

#[test]
fn github_expression_conditions_are_supported() {
    let mut c = condition("github");
    c.expression = Some("github.event_name == 'workflow_dispatch'".to_string());
    assert!(base_config(c).validate().is_ok());
}

#[test]
fn github_env_conditions_are_rejected() {
    let mut c = condition("github");
    c.env = Some("FEATURE_FLAG".to_string());
    assert!(base_config(c).validate().is_err());
}

#[test]
fn config_error_texts() {
    let mut c = condition("github");
    c.env = Some("FEATURE_FLAG".to_string());
    let err = base_config(c).validate().unwrap_err();
    assert_eq!(
        err,
        ConfigError::UnsupportedCondition {
            workflow: "main".to_string(),
            kind: WorkflowConditionKind::Env,
            provider: "github".to_string()
        }
    );
    assert_eq!(
        err.message(),
        "Workflow 'main' uses a Env condition that is not supported by provider 'github'"
    );

    let mut c = condition("github");
    c.expression = Some("  ".to_string());
    let err = base_config(c).validate().unwrap_err();
    assert_eq!(err, ConfigError::EmptyExpression { workflow: "main".to_string() });

    let err = base_config(condition("github")).validate().unwrap_err();
    assert_eq!(err, ConfigError::MissingConditionKind { workflow: "main".to_string() });

    let mut config = CigenConfig::default();
    config.jobs = vec![("test".to_string(), job_needing(&["test"]))];
    assert_eq!(config.validate().unwrap_err().message(), "Job 'test' cannot depend on itself");
}

#[test]
fn default_providers_and_condition_support() {
    let config = CigenConfig::default();
    assert_eq!(config.get_providers(), vec!["github", "circleci", "buildkite"]);
    assert!(cigen::schema::config::provider_supports_condition("circleci", None));
    assert!(!cigen::schema::config::provider_supports_condition("github", None));
    assert!(cigen::schema::config::provider_supports_condition("github", Some(WorkflowConditionKind::Expression)));
    assert!(!cigen::schema::config::provider_supports_condition("buildkite", Some(WorkflowConditionKind::Parameter)));
}

#[test]
fn documents_that_are_no_mapping_are_kept_under_root() {
    let m = YamlValue::Mapping(vec![(YamlValue::Str("jobs".to_string()), YamlValue::Null)]);
    assert_eq!(extract_mapping(YamlValue::Mapping(vec![(YamlValue::Str("jobs".to_string()), YamlValue::Null)])), m);
    assert_eq!(
        extract_mapping(YamlValue::Int(3)),
        YamlValue::Mapping(vec![(YamlValue::Str("root".to_string()), YamlValue::Int(3))])
    );
}

#[test]
fn test_packages_string() {
    let packages = packages_from_value(Some(&YamlValue::Str("ruby".to_string()))).unwrap();
    assert_eq!(packages.len(), 1);
    assert_eq!(packages[0].name, "ruby");
}

#[test]
fn test_packages_objects() {
    let value = YamlValue::Sequence(vec![
        YamlValue::Mapping(vec![
            (YamlValue::Str("name".to_string()), YamlValue::Str("node".to_string())),
            (YamlValue::Str("path".to_string()), YamlValue::Str("docs".to_string())),
        ]),
        YamlValue::Str("ruby".to_string()),
    ]);
    let packages = packages_from_value(Some(&value)).unwrap();
    assert_eq!(packages.len(), 2);
    assert_eq!(packages[0].name, "node");
    assert_eq!(packages[0].path.as_deref(), Some("docs"));
    assert_eq!(packages[1].name, "ruby");
}

#[test]
fn packages_in_other_forms_are_refused() {
    assert_eq!(packages_from_value(None).unwrap().len(), 0);
    assert_eq!(packages_from_value(Some(&YamlValue::Null)).unwrap().len(), 0);
    assert_eq!(packages_from_value(Some(&YamlValue::Int(3))).err(), Some(PackagesError::UnsupportedFormat));
    assert_eq!(
        packages_from_value(Some(&YamlValue::Sequence(vec![YamlValue::Int(3)]))).err(),
        Some(PackagesError::InvalidPackage)
    );
}

#[test]
fn source_files_are_one_pattern_or_a_list() {
    assert_eq!(source_files_from_value(Some(&YamlValue::Str("src/**".to_string()))).unwrap(), vec!["src/**".to_string()]);
    let list = YamlValue::Sequence(vec![YamlValue::Str("a".to_string()), YamlValue::Str("b".to_string())]);
    assert_eq!(source_files_from_value(Some(&list)).unwrap(), vec!["a".to_string(), "b".to_string()]);
    assert_eq!(source_files_from_value(None).unwrap(), Vec::<String>::new());
    assert_eq!(source_files_from_value(Some(&YamlValue::Bool(true))).err(), Some(PackagesError::InvalidSourceFiles));
}

#[test]
fn caches_default_to_the_native_backend() {
    assert_eq!(default_cache_backend(), CacheBackend::Native);
}

#[test]
fn conditions_compare_against_true_by_default() {
    let mut c = condition("circleci");
    assert_eq!(c.equals_value(), YamlValue::Bool(true));
    c.equals = Some(YamlValue::Str("yes".to_string()));
    assert_eq!(c.equals_value(), YamlValue::Str("yes".to_string()));
}
