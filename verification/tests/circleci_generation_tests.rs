use cigen::models::{CacheRestore, Config, DockerImageConfig, Job, JobRequires, ParameterConfig, Service, ServiceEnvironment};
use cigen::providers::circleci::config::{CircleCICommand, CircleCIConfig, CircleCIParameter, CircleCIWorkflowJob};
use cigen::providers::circleci::generator::CircleCIGenerator;
use cigen::yaml::YamlValue;

fn s(x: &str) -> String {
    x.to_string()
}

fn run_step(command: &str) -> YamlValue {
    YamlValue::Mapping(vec![(YamlValue::Str(s("run")), YamlValue::Str(s(command)))])
}

fn named_run_step(name: &str, command: &str) -> YamlValue {
    YamlValue::Mapping(vec![(
        YamlValue::Str(s("run")),
        YamlValue::Mapping(vec![
            (YamlValue::Str(s("name")), YamlValue::Str(s(name))),
            (YamlValue::Str(s("command")), YamlValue::Str(s(command))),
        ]),
    )])
}

/// Whether a string of the value (a key or a scalar) contains `text`.
fn mentions(v: &YamlValue, text: &str) -> bool {
    match v {
        YamlValue::Str(x) => x.contains(text),
        YamlValue::Sequence(items) => items.iter().any(|i| mentions(i, text)),
        YamlValue::Mapping(entries) => entries.iter().any(|(k, x)| mentions(k, text) || mentions(x, text)),
        _ => false,
    }
}

fn ruby_images() -> Vec<(String, DockerImageConfig)> {
    vec![(
        s("ruby"),
        DockerImageConfig {
            default: s("cimg/ruby:3.3.5"),
            architectures: Some(vec![
                (s("amd64"), s("cimg/ruby:3.3.5")),
                (s("arm64"), s("cimg/ruby:3.3.5-arm64")),
            ]),
        },
    )]
}

fn build(config: &Config, workflow: &str, jobs: Vec<(String, Job)>) -> CircleCIConfig {
    let generator = CircleCIGenerator::new();
    let result = generator.build_config(config, workflow, jobs, &Vec::new(), None);
    assert!(result.is_ok());
    result.unwrap()
}

fn has_job(cc: &CircleCIConfig, name: &str) -> bool {
    cc.jobs.iter().any(|(k, _)| k == name)
}

fn workflow_job_names(cc: &CircleCIConfig, workflow: &str) -> Vec<String> {
    let wf = &cc.workflows.iter().find(|(k, _)| k == workflow).unwrap().1;
    wf.jobs
        .iter()
        .map(|j| match j {
            CircleCIWorkflowJob::Simple(name) => name.clone(),
            CircleCIWorkflowJob::Detailed { job } => job[0].0.clone(),
        })
        .collect()
}

fn workflow_requires(cc: &CircleCIConfig, workflow: &str, job_name: &str) -> Option<Vec<String>> {
    let wf = &cc.workflows.iter().find(|(k, _)| k == workflow).unwrap().1;
    for j in &wf.jobs {
        if let CircleCIWorkflowJob::Detailed { job } = j {
            if let Some((_, details)) = job.iter().find(|(k, _)| k == job_name) {
                return details.requires.clone();
            }
        }
    }
    None
}

#[test]
fn test_simple_job_conversion() {
    let config = Config::new(String::new());
    let mut job = Job::new(s("cimg/ruby:3.2"));
    job.resource_class = Some(s("medium"));
    job.steps = Some(vec![run_step("echo 'Hello World'"), named_run_step("Run tests", "bundle exec rspec")]);

    let cc = build(&config, "test_workflow", vec![(s("test"), job)]);
    assert_eq!(cc.version, "2.1");
    assert!(cc.workflows.iter().any(|(k, _)| k == "test_workflow"));
    assert!(has_job(&cc, "test"));

    let job = &cc.jobs.iter().find(|(k, _)| k == "test").unwrap().1;
    assert!(job.docker.is_some());
    assert_eq!(job.resource_class, Some(s("medium")));
    // checkout and the two steps of the job
    assert_eq!(job.steps.len(), 3);
}

#[test]
fn tests_test_job_with_services() {
    let mut config = Config::new(String::new());
    config.services = Some(vec![(
        s("postgres"),
        Service {
            image: s("postgres:15"),
            environment: Some(ServiceEnvironment::Pairs(vec![(s("POSTGRES_PASSWORD"), s("test"))])),
            auth: None,
        },
    )]);
    let mut job = Job::new(s("cimg/ruby:3.2"));
    job.services = Some(vec![s("postgres")]);
    job.steps = Some(vec![run_step("echo 'Testing with DB'")]);

    let cc = build(&config, "test_workflow", vec![(s("test"), job)]);
    let job = &cc.jobs.iter().find(|(k, _)| k == "test").unwrap().1;
    let docker_images = job.docker.as_ref().unwrap();
    assert_eq!(docker_images.len(), 2);
    let postgres_image = &docker_images[1];
    assert_eq!(postgres_image.image, "postgres:15");
    assert!(postgres_image.environment.is_some());
    let env = postgres_image.environment.as_ref().unwrap();
    assert_eq!(env.iter().find(|(k, _)| k == "POSTGRES_PASSWORD").map(|(_, v)| v.clone()), Some(s("test")));
}

#[test]
fn test_job_dependencies() {
    let config = Config::new(String::new());
    let mut build_job = Job::new(s("cimg/ruby:3.2"));
    build_job.steps = Some(vec![run_step("echo 'Building'")]);
    let mut test_job = Job::new(s("cimg/ruby:3.2"));
    test_job.requires = Some(JobRequires::Single(s("build")));
    test_job.steps = Some(vec![run_step("echo 'Testing'")]);

    let cc = build(&config, "ci", vec![(s("build"), build_job), (s("test"), test_job)]);
    assert_eq!(workflow_requires(&cc, "ci", "test"), Some(vec![s("build")]));
}

#[test]
fn test_docker_image_resolution() {
    let mut config = Config::new(String::new());
    config.docker_images = Some(ruby_images());
    let job = Job::new(s("ruby"));

    let generator = CircleCIGenerator::new();
    let circleci_job = generator.convert_job_with_architecture(&config, &job, "amd64", "test_job_amd64", None).unwrap();
    assert!(circleci_job.docker.is_some());
    let docker_images = circleci_job.docker.unwrap();
    assert_eq!(docker_images.len(), 1);
    assert_eq!(docker_images[0].image, "cimg/ruby:3.3.5");
}

#[test]
fn test_docker_image_full_reference_passthrough() {
    let config = Config::new(String::new());
    let job = Job::new(s("postgres:14.9"));
    let generator = CircleCIGenerator::new();
    let circleci_job = generator.convert_job_with_architecture(&config, &job, "amd64", "test_job_amd64", None).unwrap();
    let docker_images = circleci_job.docker.unwrap();
    assert_eq!(docker_images[0].image, "postgres:14.9");
}

#[test]
fn test_architecture_matrix_generation() {
    let config = Config::new(String::new());
    let mut job = Job::new(s("cimg/ruby:3.3.5"));
    job.architectures = Some(vec![s("amd64"), s("arm64")]);

    let cc = build(&config, "test_workflow", vec![(s("test"), job)]);
    assert!(has_job(&cc, "test_amd64"));
    assert!(has_job(&cc, "test_arm64"));
    let names = workflow_job_names(&cc, "test_workflow");
    assert!(names.contains(&s("test_amd64")));
    assert!(names.contains(&s("test_arm64")));
}

#[test]
fn test_architecture_matrix_with_dependencies() {
    let config = Config::new(String::new());
    let mut build_job = Job::new(s("cimg/ruby:3.3.5"));
    build_job.architectures = Some(vec![s("amd64"), s("arm64")]);
    let mut test_job = Job::new(s("cimg/ruby:3.3.5"));
    test_job.architectures = Some(vec![s("amd64"), s("arm64")]);
    test_job.requires = Some(JobRequires::Single(s("build")));

    let cc = build(&config, "test_workflow", vec![(s("build"), build_job), (s("test"), test_job)]);
    assert!(has_job(&cc, "build_amd64"));
    assert!(has_job(&cc, "build_arm64"));
    assert!(has_job(&cc, "test_amd64"));
    assert!(has_job(&cc, "test_arm64"));
    assert_eq!(workflow_requires(&cc, "test_workflow", "test_amd64"), Some(vec![s("build_amd64")]));
    assert_eq!(workflow_requires(&cc, "test_workflow", "test_arm64"), Some(vec![s("build_arm64")]));
}

#[test]
fn test_single_architecture_no_suffix() {
    let config = Config::new(String::new());
    let mut job = Job::new(s("cimg/ruby:3.3.5"));
    job.architectures = Some(vec![s("amd64")]);

    let cc = build(&config, "test_workflow", vec![(s("test"), job)]);
    assert!(has_job(&cc, "test"));
    assert!(!has_job(&cc, "test_amd64"));
}

#[test]
fn test_architecture_environment_variables() {
    let mut config = Config::new(String::new());
    config.docker_images = Some(ruby_images());
    let mut job = Job::new(s("ruby"));
    job.architectures = Some(vec![s("arm64")]);

    let generator = CircleCIGenerator::new();
    let circleci_job = generator.convert_job_with_architecture(&config, &job, "arm64", "test_job_arm64", None).unwrap();
    let env = circleci_job.environment.unwrap();
    assert_eq!(env.iter().find(|(k, _)| k == "DOCKER_ARCH").map(|(_, v)| v.clone()), Some(s("arm64")));
    let docker_images = circleci_job.docker.unwrap();
    assert_eq!(docker_images[0].image, "cimg/ruby:3.3.5-arm64");
}

#[test]
fn test_dynamic_config_with_parameters() {
    let mut config = Config::new(String::new());
    config.setup = Some(true);
    config.parameters = Some(vec![
        (
            s("run_tests"),
            ParameterConfig {
                param_type: s("boolean"),
                default: Some(YamlValue::Bool(true)),
                description: Some(s("Whether to run tests")),
            },
        ),
        (
            s("environment"),
            ParameterConfig {
                param_type: s("string"),
                default: Some(YamlValue::Str(s("production"))),
                description: Some(s("Target environment")),
            },
        ),
    ]);

    let cc = build(&config, "setup", vec![(s("build"), Job::new(s("cimg/ruby:3.3.5")))]);
    assert_eq!(cc.setup, Some(true));
    let params = cc.parameters.unwrap();
    let get = |name: &str| params.iter().find(|(k, _)| k == name).map(|(_, p)| p.clone());
    match get("run_tests") {
        Some(CircleCIParameter::Boolean { param_type, default, description }) => {
            assert_eq!(param_type, "boolean");
            assert_eq!(default, Some(true));
            assert_eq!(description, Some(s("Whether to run tests")));
        }
        _ => panic!("Expected boolean parameter"),
    }
    match get("environment") {
        Some(CircleCIParameter::String { param_type, default, description }) => {
            assert_eq!(param_type, "string");
            assert_eq!(default, Some(s("production")));
            assert_eq!(description, Some(s("Target environment")));
        }
        _ => panic!("Expected string parameter"),
    }
}

#[test]
fn test_dynamic_flag_enables_setup() {
    let mut config = Config::new(String::new());
    config.dynamic = Some(true);
    let cc = build(&config, "setup", vec![(s("build"), Job::new(s("cimg/ruby:3.3.5")))]);
    assert_eq!(cc.setup, Some(true));
}

#[test]
fn test_cache_restoration() {
    let generator = CircleCIGenerator::new();
    let config = Config::new(String::new());
    let mut job = Job::new(s("rust:latest"));
    job.resource_class = Some(s("medium"));
    job.restore_cache = Some(vec![
        CacheRestore::Simple(s("gems")),
        CacheRestore::Complex { name: s("npm_packages"), dependency: Some(false) },
    ]);

    let circleci_job = generator.convert_job_with_architecture(&config, &job, "amd64", "test_job_amd64", None).unwrap();
    assert!(circleci_job.steps.len() >= 3, "Should have checkout + at least 2 restore_cache steps");
    assert!(mentions(&circleci_job.steps[0].raw, "checkout"), "First step should be checkout");
    let first = &circleci_job.steps[1].raw;
    assert!(mentions(first, "restore_cache"), "Second step should be restore_cache");
    assert!(mentions(first, "gems"), "First cache should be for gems");
    let second = &circleci_job.steps[2].raw;
    assert!(mentions(second, "restore_cache"), "Third step should be restore_cache");
    assert!(mentions(second, "npm_packages"), "Second cache should be for npm_packages");
}

#[test]
fn test_job_with_cache_and_steps() {
    let generator = CircleCIGenerator::new();
    let config = Config::new(String::new());
    let mut job = Job::new(s("node:14"));
    job.resource_class = Some(s("large"));
    job.restore_cache = Some(vec![CacheRestore::Simple(s("node_modules"))]);
    job.steps = Some(vec![
        named_run_step("Install Dependencies", "npm install"),
        named_run_step("Run Tests", "npm test"),
    ]);

    let circleci_job = generator.convert_job_with_architecture(&config, &job, "amd64", "test_job_amd64", None).unwrap();
    assert_eq!(circleci_job.steps.len(), 4, "Should have checkout + 1 cache restore + 2 regular steps");
    assert!(mentions(&circleci_job.steps[0].raw, "checkout"), "First step should be checkout");
    assert!(mentions(&circleci_job.steps[1].raw, "restore_cache"), "Second step should be restore_cache");
    assert!(mentions(&circleci_job.steps[2].raw, "Install Dependencies"), "Third step should be Install Dependencies");
    assert!(mentions(&circleci_job.steps[3].raw, "Run Tests"), "Fourth step should be Run Tests");
}

#[test]
fn test_job_skip_logic_hash_step_patterns() {
    let mut config = Config::new(String::new());
    config.source_file_groups = Some(vec![(s("ruby"), vec![s("**/*.rb"), s("Gemfile")])]);

    let mut job = Job::new(s("cimg/ruby:3.3"));
    job.source_files = Some(vec![s("@ruby"), s("config/ci.yml")]);

    let generator = CircleCIGenerator::new();
    let circleci_job = generator.convert_job_with_architecture(&config, &job, "amd64", "ruby_lint", None).unwrap();

    assert!(circleci_job.steps.len() >= 6, "expected checkout, hash, skip, completion, and cache steps");

    let hash_step = &circleci_job.steps[1].raw;
    assert!(hash_step.is_mapping(), "hash step should be a mapping");
    let command = hash_step.get("cigen_calculate_sha256").expect("cigen_calculate_sha256 command missing");
    assert!(command.is_mapping(), "command should be a mapping");
    let patterns = command
        .get("patterns")
        .expect("patterns parameter missing")
        .as_str()
        .expect("patterns should be a string");
    assert_eq!(patterns, "**/*.rb\nGemfile\nconfig/ci.yml");

    let skip_step = &circleci_job.steps[2].raw;
    assert!(mentions(skip_step, "Check if job should be skipped"), "skip check run step missing");

    let exists_cache_step = &circleci_job.steps.last().unwrap().raw;
    assert!(
        mentions(exists_cache_step, "job_status-exists-v1-ruby_lint-amd64"),
        "job exists cache key should include job name and architecture"
    );
}

#[test]
fn test_job_skip_logic_with_submodules() {
    let mut config = Config::new(String::new());
    config.source_file_groups = Some(vec![]);

    let mut job = Job::new(s("cimg/node:20"));
    job.source_files = Some(vec![s("docs/**/*")]);
    job.source_submodules = Some(vec![s("docs/scalar"), s("docs/src/content/docs")]);

    let generator = CircleCIGenerator::new();
    let circleci_job = generator.convert_job_with_architecture(&config, &job, "amd64", "compile_docs", None).unwrap();

    assert!(circleci_job.steps.len() >= 6);

    let first_submodule_step = &circleci_job.steps[1].raw;
    assert!(first_submodule_step.is_mapping(), "first submodule step should be mapping");
    let first_command = first_submodule_step
        .get("cigen_write_submodule_commit_hash")
        .expect("first submodule command missing");
    assert!(first_command.is_mapping(), "first submodule command parameters");
    assert_eq!(
        first_command.get("submodule").expect("submodule parameter missing").as_str().unwrap(),
        "docs/scalar"
    );
    let first_output = first_command.get("output_file").expect("output_file parameter missing").as_str().unwrap();
    assert!(first_output.contains("/tmp/cigen/submodule-hashes/compile-docs-docs-scalar.commit"));

    let second_submodule_step = &circleci_job.steps[2].raw;
    assert!(second_submodule_step.is_mapping(), "second submodule step should be mapping");
    let second_command = second_submodule_step
        .get("cigen_write_submodule_commit_hash")
        .expect("second submodule command missing");
    assert!(second_command.is_mapping(), "second submodule command parameters");
    let second_output = second_command.get("output_file").expect("output_file parameter missing").as_str().unwrap();
    assert!(second_output.contains("compile-docs-docs-src-content-docs.commit"));

    let hash_step = &circleci_job.steps[3].raw;
    assert!(hash_step.is_mapping(), "hash step should be mapping");
    let hash_command = hash_step.get("cigen_calculate_sha256").expect("hash command missing");
    assert!(hash_command.is_mapping(), "hash parameters");
    let unfiltered = hash_command.get("unfiltered_patterns").expect("unfiltered_patterns missing").as_str().unwrap();
    assert!(unfiltered.contains("compile-docs-docs-scalar.commit"));
    assert!(unfiltered.contains("compile-docs-docs-src-content-docs.commit"));
}

#[test]
fn submodule_steps_feed_the_hash_and_name_their_files() {
    let mut config = Config::new(String::new());
    config.source_file_groups = Some(vec![]);
    let mut job = Job::new(s("cimg/node:20"));
    job.source_files = Some(vec![s("src/")]);
    job.source_submodules = Some(vec![s("vendor/lib_a")]);
    let cj = CircleCIGenerator::new().convert_job_with_architecture(&config, &job, "arm64", "build_docs", None).unwrap();
    let hash = cj.steps[2].raw.get("cigen_calculate_sha256").unwrap();
    assert_eq!(hash.get("patterns").unwrap().as_str(), Some("src/"));
    assert_eq!(
        hash.get("unfiltered_patterns").unwrap().as_str(),
        Some("/tmp/cigen/submodule-hashes/build-docs-vendor-lib-a.commit")
    );
    assert!(mentions(&cj.steps.last().unwrap().raw, "job_status-exists-v1-build_docs-arm64-{{ checksum"));
}

#[test]
fn jobs_without_submodules_hash_only_their_patterns() {
    let mut config = Config::new(String::new());
    config.source_file_groups = Some(vec![]);
    let mut job = Job::new(s("cimg/node:20"));
    job.source_files = Some(vec![s("a.txt"), s("b/")]);
    let cj = CircleCIGenerator::new().convert_job_with_architecture(&config, &job, "amd64", "lint", None).unwrap();
    let hash = cj.steps[1].raw.get("cigen_calculate_sha256").unwrap();
    assert_eq!(hash.get("patterns").unwrap().as_str(), Some("a.txt\nb/"));
    assert!(hash.get("unfiltered_patterns").is_none());
}

#[test]
fn template_commands_used_by_steps_are_defined() {
    let mut config = Config::new(String::new());
    config.source_file_groups = Some(vec![]);
    let mut job = Job::new(s("cimg/base:current"));
    job.source_files = Some(vec![s("src/")]);
    job.steps = Some(vec![YamlValue::Str(s("cigen_shallow_checkout")), run_step("make")]);
    let cc = CircleCIGenerator::new()
        .build_config(&config, "ci", vec![(s("build"), job)], &Vec::new(), None)
        .unwrap();
    let commands: Vec<(String, CircleCICommand)> = cc.commands.unwrap();
    let names: Vec<String> = commands.iter().map(|(k, _)| k.clone()).collect();
    assert!(names.contains(&s("cigen_shallow_checkout")));
    assert!(names.contains(&s("cigen_calculate_sha256")));
    assert!(!names.contains(&s("cigen_write_submodule_commit_hash")));
    assert!(!names.contains(&s("continue_circleci_pipeline")));
    let sha = &commands.iter().find(|(k, _)| k == "cigen_calculate_sha256").unwrap().1;
    let params: Vec<String> = sha.parameters.as_ref().unwrap().iter().map(|(k, _)| k.clone()).collect();
    assert_eq!(params, vec![s("patterns"), s("ignorefile"), s("add_ci_files"), s("unfiltered_patterns")]);
    assert!(mentions(&sha.steps[0].raw, "Hash calculated: $JOB_HASH"));
}
