use cigen::models::{CacheDefinition, CacheRestore, CheckoutSetting, Config, Job, JobCache, JobRequires, PathOrDetect};
use cigen::providers::github_actions::cache::CacheGenerator;
use cigen::providers::github_actions::generator::{BuildStepError, GitHubActionsGenerator, JobSettings, WorkflowSettings};
use cigen::providers::github_actions::job_skip::{JobSkipGenerator, SourceFilesError};
use cigen::providers::github_actions::schema::{RunsOn, WorkflowTrigger};
use cigen::providers::github_actions::GitHubActionsProvider;
use cigen::providers::Provider;
use cigen::yaml::YamlValue;

fn with_value<'a>(with: &'a [(String, YamlValue)], key: &str) -> Option<&'a YamlValue> {
    with.iter().find(|(k, _)| k == key).map(|(_, v)| v)
}

fn s(v: &str) -> YamlValue {
    YamlValue::Str(v.to_string())
}

fn map(entries: Vec<(&str, YamlValue)>) -> YamlValue {
    YamlValue::Mapping(entries.into_iter().map(|(k, v)| (s(k), v)).collect())
}

#[test]
fn test_provider_name() {
    let provider = GitHubActionsProvider::new();
    assert_eq!(provider.name(), "github-actions");
}

#[test]
fn test_default_output_path() {
    let provider = GitHubActionsProvider::new();
    assert_eq!(provider.default_output_path(), ".github/workflows");
}

#[test]
fn test_cache_generator_creation() {
    let generator = CacheGenerator::new();
    let config = Config::new(String::new());
    let job = Job::new("rust:latest".to_string());

    let cache_steps = generator.generate_cache_steps(&config, &job, "amd64");
    assert_eq!(cache_steps.len(), 0);
}

#[test]
fn test_cache_key_template_conversion() {
    let generator = CacheGenerator::new();

    let result = generator.convert_cache_key_template(
        "linux-{{ arch }}-gems-{{ checksum \"Gemfile.lock\" }}",
        "amd64",
    );
    assert_eq!(result, "linux-amd64-gems-${{ hashFiles('Gemfile.lock') }}");

    let result = generator.convert_cache_key_template("{{ checksum \"package-lock.json\" }}", "amd64");
    assert_eq!(result, "${{ hashFiles('package-lock.json') }}");

    let result = generator.convert_cache_key_template("{{ checksum 'Cargo.lock' }}", "arm64");
    assert_eq!(result, "${{ hashFiles('Cargo.lock') }}");
}

#[test]
fn cache_key_template_with_parentheses_and_repeated_arch() {
    let generator = CacheGenerator::new();
    let result = generator.convert_cache_key_template("{{ arch }}/{{ arch }}-{{ checksum(\"a.lock\") }}", "arm64");
    assert_eq!(result, "arm64/arm64-${{ hashFiles('a.lock') }}");
}

#[test]
fn test_cache_step_generation_with_job_cache() {
    let generator = CacheGenerator::new();

    let mut config = Config::new("github-actions".to_string());
    config.cache_definitions = Some(vec![(
        "gems".to_string(),
        CacheDefinition {
            key: Some("linux-{{ arch }}-gems-{{ checksum \"Gemfile.lock\" }}".to_string()),
            paths: Some(vec![PathOrDetect::Path("vendor/bundle".to_string())]),
        },
    )]);

    let mut job = Job::new("ruby:3.3".to_string());
    job.cache = Some(vec![(
        "gems".to_string(),
        JobCache { paths: vec!["vendor/bundle".to_string()], restore: true },
    )]);
    job.architectures = Some(vec!["amd64".to_string()]);

    let cache_steps = generator.generate_cache_steps(&config, &job, "amd64");
    assert_eq!(cache_steps.len(), 1);

    let step = &cache_steps[0];
    assert_eq!(step.uses, Some("actions/cache@v4".to_string()));
    assert_eq!(step.name, Some("Restore gems cache".to_string()));

    let with = step.with.as_ref().unwrap();
    assert_eq!(with_value(with, "path").unwrap(), &s("vendor/bundle"));
    assert_eq!(
        with_value(with, "key").unwrap(),
        &s("linux-amd64-gems-${{ hashFiles('Gemfile.lock') }}")
    );
    let restore_keys = with_value(with, "restore-keys").unwrap().as_str().unwrap();
    assert!(restore_keys.contains("${{ runner.os }}-amd64-gems-"));
}

#[test]
fn test_cache_step_generation_with_restore_cache() {
    let generator = CacheGenerator::new();

    let mut config = Config::new("github-actions".to_string());
    config.cache_definitions = Some(vec![(
        "node_modules".to_string(),
        CacheDefinition {
            key: Some("${{ runner.os }}-node-{{ checksum \"package-lock.json\" }}".to_string()),
            paths: Some(vec![PathOrDetect::Path("node_modules".to_string())]),
        },
    )]);

    let mut job = Job::new("node:20".to_string());
    job.restore_cache = Some(vec![CacheRestore::Simple("node_modules".to_string())]);

    let cache_steps = generator.generate_cache_steps(&config, &job, "amd64");
    assert_eq!(cache_steps.len(), 1);

    let step = &cache_steps[0];
    assert_eq!(step.uses, Some("actions/cache@v4".to_string()));
    assert_eq!(step.name, Some("Restore node_modules cache".to_string()));
}

#[test]
fn cache_without_definition_uses_default_key() {
    let generator = CacheGenerator::new();
    let config = Config::new(String::new());
    let mut job = Job::new("node:20".to_string());
    job.cache = Some(vec![
        ("deps".to_string(), JobCache { paths: vec!["a".to_string(), "b".to_string()], restore: true }),
        ("skipped".to_string(), JobCache { paths: vec!["c".to_string()], restore: false }),
    ]);
    job.restore_cache = Some(vec![CacheRestore::Complex { name: "other".to_string(), dependency: None }]);

    let steps = generator.generate_cache_steps(&config, &job, "arm64");
    assert_eq!(steps.len(), 2);
    let with = steps[0].with.as_ref().unwrap();
    assert_eq!(with_value(with, "path").unwrap(), &s("a\nb"));
    assert_eq!(
        with_value(with, "key").unwrap(),
        &s("${{ runner.os }}-arm64-deps-${{ hashFiles('**/lockfile') }}")
    );
    assert_eq!(with_value(with, "restore-keys").unwrap(), &s("${{ runner.os }}-arm64-deps-"));
    assert_eq!(steps[1].name, Some("Restore other cache".to_string()));
    assert_eq!(with_value(steps[1].with.as_ref().unwrap(), "path").unwrap(), &s(""));
}

#[test]
fn test_skip_generator_creation() {
    let generator = JobSkipGenerator::new();
    let config = Config::new(String::new());
    let job = Job::new("rust:latest".to_string());

    let result = generator.generate_skip_steps(&config, &job, "amd64").unwrap();
    assert!(result.is_none());
}

#[test]
fn test_skip_steps_generation_with_source_files() {
    let generator = JobSkipGenerator::new();

    let mut config = Config::new("github-actions".to_string());
    config.source_file_groups = Some(vec![(
        "ruby".to_string(),
        vec!["**/*.rb".to_string(), "Gemfile*".to_string(), ".ruby-version".to_string()],
    )]);

    let mut job = Job::new("ruby:3.3".to_string());
    job.source_files = Some(vec!["@ruby".to_string()]);

    let result = generator.generate_skip_steps(&config, &job, "amd64").unwrap();
    assert!(result.is_some());

    let (hash_step, skip_step, completion_step) = result.unwrap();

    assert_eq!(hash_step.id, Some("calculate_hash".to_string()));
    assert_eq!(hash_step.name, Some("Calculate source file hash".to_string()));
    assert!(hash_step.run.is_some());
    let hash_command = hash_step.run.unwrap();
    assert!(hash_command.contains("**/*.rb"));
    assert!(hash_command.contains("Gemfile*"));
    assert!(hash_command.contains(".ruby-version"));
    assert!(hash_command.contains("JOB_HASH"));

    assert_eq!(skip_step.id, Some("check_skip".to_string()));
    assert_eq!(skip_step.name, Some("Check if job should be skipped".to_string()));
    assert!(skip_step.run.is_some());
    let skip_command = skip_step.run.unwrap();
    assert!(skip_command.contains("/tmp/cigen_skip_cache"));
    assert!(skip_command.contains("job_${{ env.JOB_HASH }}_amd64"));
    assert!(skip_command.contains("exit 0"));

    assert_eq!(completion_step.id, Some("record_completion".to_string()));
    assert_eq!(completion_step.name, Some("Record job completion".to_string()));
    assert!(completion_step.run.is_some());
    let completion_command = completion_step.run.unwrap();
    assert!(completion_command.contains("Recording successful completion"));
    assert!(completion_command.contains("job_${{ env.JOB_HASH }}_amd64"));
}

#[test]
fn test_inline_source_files() {
    let generator = JobSkipGenerator::new();
    let config = Config::new("github-actions".to_string());

    let mut job = Job::new("node:20".to_string());
    job.source_files = Some(vec!["src/**/*.ts".to_string(), "package.json".to_string()]);

    let result = generator.generate_skip_steps(&config, &job, "amd64").unwrap();
    assert!(result.is_some());

    let (hash_step, _skip_step, _completion_step) = result.unwrap();
    let hash_command = hash_step.run.unwrap();
    assert!(hash_command.contains("src/**/*.ts"));
    assert!(hash_command.contains("package.json"));
}

#[test]
fn hash_step_escapes_single_quotes_and_lists_lines() {
    let generator = JobSkipGenerator::new();
    let config = Config::new(String::new());
    let mut job = Job::new("x".to_string());
    job.source_files = Some(vec!["it's/*".to_string()]);
    let (hash_step, _, _) = generator.generate_skip_steps(&config, &job, "amd64").unwrap().unwrap();
    let run = hash_step.run.unwrap();
    let lines: Vec<&str> = run.split('\n').collect();
    assert_eq!(lines.len(), 5 + 1 + 11);
    assert_eq!(lines[0], "set -e");
    assert_eq!(
        lines[5],
        "find . -path './it'\\''s/*' -type f 2>/dev/null | sort >> \"$TEMP_HASH_FILE\" || true"
    );
    assert_eq!(lines[16], "fi");
    assert_eq!(hash_step.shell, Some("bash".to_string()));
}

#[test]
fn skip_steps_report_missing_groups() {
    let generator = JobSkipGenerator::new();
    let mut job = Job::new("x".to_string());
    job.source_files = Some(vec!["@ruby".to_string()]);

    let config = Config::new(String::new());
    assert_eq!(
        generator.generate_skip_steps(&config, &job, "amd64").err(),
        Some(SourceFilesError::GroupsUndefined)
    );

    let mut config = Config::new(String::new());
    config.source_file_groups = Some(vec![("node".to_string(), vec!["*.js".to_string()])]);
    assert_eq!(
        generator.generate_skip_steps(&config, &job, "amd64").err(),
        Some(SourceFilesError::GroupNotFound("ruby".to_string()))
    );
}

#[test]
fn default_triggers_are_push_and_pull_request_to_main() {
    let generator = GitHubActionsGenerator::new();
    match generator.default_ci_triggers() {
        WorkflowTrigger::Detailed(events) => {
            assert_eq!(events.len(), 2);
            assert_eq!(events[0].0, "push");
            assert_eq!(events[0].1.branches, Some(vec!["main".to_string()]));
            assert_eq!(events[1].0, "pull_request");
            assert_eq!(events[1].1.branches, Some(vec!["main".to_string()]));
        }
        _ => panic!("expected detailed triggers"),
    }
    assert!(generator.build_workflow_triggers(&Config::new(String::new()), "ci").is_some());
}

#[test]
fn runs_on_follows_the_image() {
    assert_eq!(GitHubActionsGenerator::runs_on("ubuntu-22.04"), RunsOn::Single("ubuntu-latest".to_string()));
    assert_eq!(GitHubActionsGenerator::runs_on("rust:latest"), RunsOn::Single("ubuntu-latest".to_string()));
    assert_eq!(GitHubActionsGenerator::runs_on("macos-14"), RunsOn::Single("macos-latest".to_string()));
    assert_eq!(GitHubActionsGenerator::runs_on("node:20"), RunsOn::Single("node:20".to_string()));
}

#[test]
fn matrix_only_for_several_architectures() {
    let generator = GitHubActionsGenerator::new();
    let mut job = Job::new("x".to_string());
    assert!(generator.build_matrix_strategy(&job).is_none());
    job.architectures = Some(vec!["amd64".to_string()]);
    assert!(generator.build_matrix_strategy(&job).is_none());
    job.architectures = Some(vec!["amd64".to_string(), "arm64".to_string()]);
    let strategy = generator.build_matrix_strategy(&job).unwrap();
    assert_eq!(strategy.matrix, vec![("arch".to_string(), vec![s("amd64"), s("arm64")])]);
}

#[test]
fn build_step_converts_run_forms() {
    let generator = GitHubActionsGenerator::new();
    let circleci_run = map(vec![("run", map(vec![("name", s("Test")), ("command", s("cargo test"))]))]);
    let step = generator.build_step(&circleci_run).unwrap();
    assert_eq!(step.name, Some("Test".to_string()));
    assert_eq!(step.run, Some("cargo test".to_string()));
    assert_eq!(step.uses, None);

    let native = map(vec![("name", s("Run tests")), ("run", s("cargo test")), ("id", s("t"))]);
    let step = generator.build_step(&native).unwrap();
    assert_eq!(step.id, Some("t".to_string()));
    assert_eq!(step.name, Some("Run tests".to_string()));
    assert_eq!(step.run, Some("cargo test".to_string()));
}

#[test]
fn build_step_converts_uses_steps() {
    let generator = GitHubActionsGenerator::new();
    let uses = map(vec![
        ("uses", s("actions/setup-node@v4")),
        ("with", YamlValue::Mapping(vec![
            (s("node-version"), s("20")),
            (YamlValue::Null, s("dropped")),
            (s("nested"), YamlValue::Mapping(vec![(YamlValue::Sequence(vec![]), s("bad key"))])),
        ])),
        ("env", map(vec![("A", s("1")), ("B", YamlValue::Int(2))])),
        ("if", s("always()")),
        ("timeout-minutes", YamlValue::Int(10)),
        ("continue-on-error", YamlValue::Bool(true)),
    ]);
    let step = generator.build_step(&uses).unwrap();
    assert_eq!(step.uses, Some("actions/setup-node@v4".to_string()));
    assert_eq!(step.with, Some(vec![("node-version".to_string(), s("20"))]));
    assert_eq!(step.env, Some(vec![("A".to_string(), "1".to_string())]));
    assert_eq!(step.condition, Some("always()".to_string()));
    assert_eq!(step.timeout_minutes, Some(10));
    assert_eq!(step.continue_on_error, Some(true));
}

#[test]
fn build_step_rejects_command_references_and_other_forms() {
    let generator = GitHubActionsGenerator::new();
    let reference = map(vec![("my_command", YamlValue::Null)]);
    assert_eq!(
        generator.build_step(&reference).err(),
        Some(BuildStepError::CommandReference("my_command".to_string()))
    );
    assert_eq!(generator.build_step(&s("checkout")).err(), Some(BuildStepError::Unsupported));
}

#[test]
fn build_steps_order_with_checkout_skip_and_user_steps() {
    let generator = GitHubActionsGenerator::new();
    let config = Config::new(String::new());
    let mut job = Job::new("rust:latest".to_string());
    job.checkout = Some(CheckoutSetting::Bool(true));
    job.source_files = Some(vec!["src/**".to_string()]);
    job.steps = Some(vec![map(vec![("name", s("Run tests")), ("run", s("cargo test"))])]);
    let steps = generator.build_steps(&config, &job).unwrap();
    assert_eq!(steps.len(), 5);
    assert_eq!(steps[0].uses, Some("actions/checkout@v4".to_string()));
    assert_eq!(steps[1].id, Some("calculate_hash".to_string()));
    assert_eq!(steps[2].id, Some("check_skip".to_string()));
    assert_eq!(steps[3].run, Some("cargo test".to_string()));
    assert_eq!(steps[4].id, Some("record_completion".to_string()));

    job.checkout = Some(CheckoutSetting::Bool(false));
    job.source_files = None;
    let steps = generator.build_steps(&config, &job).unwrap();
    assert_eq!(steps.len(), 1);
}

#[test]
fn build_job_runs_on_and_needs() {
    let generator = GitHubActionsGenerator::new();
    let config = Config::new(String::new());
    let mut job = Job::new("macos-14".to_string());
    job.requires = Some(JobRequires::Single("build".to_string()));
    job.architectures = Some(vec!["amd64".to_string(), "arm64".to_string()]);
    let gh = generator.build_job(&config, &job, None, None, None).unwrap();
    assert_eq!(gh.runs_on, Some(RunsOn::Single("macos-latest".to_string())));
    assert_eq!(gh.needs, Some(vec!["build".to_string()]));
    assert!(gh.strategy.is_some());
    assert_eq!(gh.steps.unwrap().len(), 1);
}

#[test]
fn build_workflow_builds_each_job_with_default_triggers() {
    let generator = GitHubActionsGenerator::new();
    let config = Config::new(String::new());
    let mut build = Job::new("rust:latest".to_string());
    build.steps = Some(vec![map(vec![("name", s("Build")), ("run", s("cargo build"))])]);
    build.architectures = Some(vec!["amd64".to_string(), "arm64".to_string()]);
    let mut test = Job::new("macos-14".to_string());
    test.requires = Some(JobRequires::Single("build".to_string()));
    let jobs = vec![("build".to_string(), build), ("test".to_string(), test)];
    let settings = || JobSettings { strategy: None, permissions: None, environment: None };
    let workflow = generator
        .build_workflow(
            &config,
            "ci",
            &jobs,
            vec![settings(), settings()],
            WorkflowSettings { on: None, permissions: None, concurrency: None, env: None },
        )
        .ok()
        .unwrap();
    assert_eq!(workflow.name, "ci");
    assert_eq!(workflow.on, Some(generator.default_ci_triggers()));
    assert_eq!(workflow.jobs.len(), 2);
    let build_job = &workflow.jobs.iter().find(|(k, _)| k == "build").unwrap().1;
    assert_eq!(build_job.runs_on, Some(RunsOn::Single("ubuntu-latest".to_string())));
    assert!(build_job.strategy.is_some());
    let test_job = &workflow.jobs.iter().find(|(k, _)| k == "test").unwrap().1;
    assert_eq!(test_job.runs_on, Some(RunsOn::Single("macos-latest".to_string())));
    assert_eq!(test_job.needs, Some(vec!["build".to_string()]));
    assert!(test_job.strategy.is_none());
}

#[test]
fn build_step_errors_have_their_messages() {
    assert_eq!(
        BuildStepError::CommandReference("my_command".to_string()).message(),
        "Command reference 'my_command' not yet expanded for GitHub Actions"
    );
    assert_eq!(BuildStepError::Unsupported.message(), "Unsupported step format for GitHub Actions");
}
