use cigen::models::{CacheDefinition, CacheRestore, Config, DockerAuth, DockerConfig, Job, JobRequires, Service};
use cigen::validation::data::source_files_validator::SourceFilesValidator;
use cigen::providers::{get_provider, AnyProvider};
use cigen::templating::functions::{checksum_function, ChecksumTarget};
use cigen::validation::data::reference_validator::{JobSource, ReferenceError, ReferenceValidator};
use cigen::validation::data::span_finder::{SpanInfo, SpannedYaml, SpannedValue};
use cigen::validation::data::validator::{DataError, DataValidator};
use cigen::validation::plan::{is_yaml_file_name, DirEntry, LayoutError, TaskKind};
use cigen::validation::schemas::{SchemaName, SchemaRetriever};
use cigen::validation::validator::{ConfigValidator, Validator};

fn s(x: &str) -> String {
    x.to_string()
}

fn file(name: &str) -> DirEntry {
    DirEntry { name: s(name), is_file: true, is_dir: false, contents: vec![], read_error: None }
}

fn dir(name: &str, contents: Vec<DirEntry>) -> DirEntry {
    DirEntry { name: s(name), is_file: false, is_dir: true, contents, read_error: None }
}

fn str_node(start: usize, end: usize, x: &str) -> SpannedYaml {
    SpannedYaml { start, end, value: SpannedValue::Str(s(x)) }
}

fn mapping(start: usize, end: usize, entries: Vec<(SpannedYaml, SpannedYaml)>) -> SpannedYaml {
    SpannedYaml { start, end, value: SpannedValue::Mapping(entries) }
}

#[test]
fn yaml_file_names_need_a_stem() {
    assert!(is_yaml_file_name("config.yml"));
    assert!(is_yaml_file_name("job.yaml"));
    assert!(!is_yaml_file_name(".yml"));
    assert!(!is_yaml_file_name("notes.txt"));
}

#[test]
fn validate_all_plans_every_file_in_order() {
    let entries = vec![
        file("config.yml"),
        dir("config", vec![file("docker.yml"), file("notes.txt"), file("services.yaml")]),
        dir(
            "workflows",
            vec![dir("ci", vec![file("config.yml"), dir("jobs", vec![file("test.yml"), dir("nested", vec![])])])],
        ),
        dir("commands", vec![file("setup.yml")]),
    ];
    let tasks = Validator::new().unwrap().validate_all(true, true, &entries).ok().unwrap();
    let view: Vec<(bool, Vec<String>)> = tasks.iter().map(|t| (t.error.is_none(), t.path.clone())).collect();
    assert_eq!(
        view,
        vec![
            (true, vec![s("config.yml")]),
            (true, vec![s("config"), s("docker.yml")]),
            (true, vec![s("config"), s("services.yaml")]),
            (true, vec![s("workflows"), s("ci"), s("config.yml")]),
            (true, vec![s("workflows"), s("ci"), s("jobs"), s("test.yml")]),
            (true, vec![s("commands"), s("setup.yml")]),
        ]
    );
    let kinds: Vec<TaskKind> = tasks.iter().map(|t| t.kind).collect();
    assert!(
        kinds
            == vec![TaskKind::Config, TaskKind::Fragment, TaskKind::Fragment, TaskKind::WorkflowConfig, TaskKind::Job, TaskKind::Command]
    );
}

#[test]
fn validate_all_reports_layout_errors() {
    let v = Validator::new().unwrap();
    assert!(v.validate_all(false, false, &vec![]).err() == Some(LayoutError::Missing));
    assert!(v.validate_all(true, false, &vec![]).err() == Some(LayoutError::NotDirectory));
    let e = v.validate_all(true, true, &vec![file("other.yml")]).err().unwrap();
    assert!(e == LayoutError::MissingConfig);
    assert_eq!(e.message("ci"), "No config file found in ci: expected config.yml or .cigen/config.yml");
    assert_eq!(LayoutError::Missing.message("x"), "Configuration directory does not exist: x");
}

#[test]
fn test_validate_all_missing_config() {
    let validator = Validator::new().unwrap();

    // An empty directory: no config.yml and no .cigen/config.yml
    let result = validator.validate_all(true, true, &vec![]);
    assert!(result.is_err());
    let error_msg = result.err().unwrap().message("/tmp/empty");
    assert!(error_msg.contains("No config file found"));
}

#[test]
fn test_validate_all_with_split_configs() {
    let validator = Validator::new().unwrap();

    // The configuration lives under .cigen, with split files in .cigen/config
    let entries = vec![dir(
        ".cigen",
        vec![file("config.yml"), dir("config", vec![file("services.yml"), file("docker.yml")])],
    )];
    let result = validator.validate_all(true, true, &entries);
    assert!(result.is_ok());
    let paths: Vec<Vec<String>> = result.ok().unwrap().iter().map(|t| t.path.clone()).collect();
    assert_eq!(
        paths,
        vec![
            vec![s(".cigen"), s("config.yml")],
            vec![s(".cigen"), s("config"), s("services.yml")],
            vec![s(".cigen"), s("config"), s("docker.yml")],
        ]
    );
}

#[test]
fn cigen_directory_without_config_is_refused() {
    let v = Validator::new().unwrap();
    let entries = vec![dir(".cigen", vec![dir("config", vec![file("services.yml")])])];
    assert!(v.validate_all(true, true, &entries).err() == Some(LayoutError::MissingConfig));
}

#[test]
fn unreadable_directories_stop_with_their_error() {
    let entries = vec![
        file("config.yml"),
        DirEntry { name: s("commands"), is_file: false, is_dir: true, contents: vec![], read_error: Some(s("denied")) },
    ];
    let tasks = Validator::new().unwrap().validate_all(true, true, &entries).ok().unwrap();
    assert_eq!(tasks.len(), 2);
    assert!(tasks[1].kind == TaskKind::ReadFailed);
    assert_eq!(tasks[1].path, vec![s("commands")]);
    assert_eq!(tasks[1].error, Some(s("denied")));
}

#[test]
fn instance_paths_point_at_unexpected_properties() {
    assert_eq!(
        ConfigValidator::refine_instance_path("Additional properties are not allowed ('foo' was unexpected)", ""),
        "/foo"
    );
    assert_eq!(
        ConfigValidator::refine_instance_path("Additional properties are not allowed ('bar' was unexpected)", "/jobs"),
        "/jobs/bar"
    );
    assert_eq!(ConfigValidator::refine_instance_path("\"x\" is not of type \"integer\"", "/jobs"), "/jobs");
}

#[test]
fn schema_references_resolve_to_embedded_schemas() {
    let r = SchemaRetriever;
    assert!(r.retrieve("./job-schema.json").ok() == Some(SchemaName::Job));
    assert!(r.retrieve("https://cigen.dev/schemas/v1/command-schema.json#/definitions/x").ok() == Some(SchemaName::Command));
    assert!(r.retrieve("https://json-schema.org/draft-07/schema#").ok() == Some(SchemaName::Draft07));
    assert_eq!(r.retrieve("./other.json#/a").err(), Some(s("Unknown schema URI: ./other.json")));
    assert_eq!(r.retrieve("./other.json").err(), Some(s("Unknown schema URI: ./other.json")));
}

#[test]
fn providers_are_chosen_by_name() {
    assert!(matches!(get_provider("circleci"), Ok(AnyProvider::CircleCI(_))));
    assert!(matches!(get_provider("github-actions"), Ok(AnyProvider::GitHubActions(_))));
    assert_eq!(get_provider("buildkite").err(), Some(s("Unknown provider: buildkite")));
}

#[test]
fn checksums_of_files_and_failures() {
    let ok = checksum_function(&ChecksumTarget::File(Ok(b"hello world".to_vec())), "a.txt");
    assert_eq!(ok, Ok(s("b94d27b9934d3e08a52e52d7da7dabfac484efe37a5380ee9088f7ace2efcde9")));
    assert_eq!(
        checksum_function(&ChecksumTarget::File(Err(s("gone"))), "a.txt"),
        Err(s("Failed to read file 'a.txt': gone"))
    );
    assert_eq!(
        checksum_function(&ChecksumTarget::Neither, "x"),
        Err(s("Path 'x' is neither a file nor a directory"))
    );
    let d = checksum_function(&ChecksumTarget::Directory(Ok(vec![(Some(s("a.txt")), Some(b"h1h2".to_vec()))])), "d");
    assert_eq!(d, Ok(s("c314d902ad145a58e81a8b28c84a0c94abcb61d892c661dc35f521be7e7e7e58")));
}

fn docker_config(default_auth: &str) -> Config {
    let mut config = Config::new(s("circleci"));
    config.docker = Some(DockerConfig {
        default_auth: Some(s(default_auth)),
        auth: Some(vec![(s("hub"), DockerAuth { username: s("u"), password: s("p") })]),
    });
    config
}

#[test]
fn data_validator_points_at_unknown_default_auth() {
    let content = "docker:\n  default_auth: ghcr\n";
    let v = DataValidator::new("config.yml", s(content));
    match v.validate_config_data(Ok(docker_config("ghcr"))) {
        Err(DataError::Reference(e)) => {
            assert_eq!(e.message, "Unknown docker auth 'ghcr'. Available auth configurations: 'hub'");
            assert_eq!(&content[e.span.start..e.span.end], "ghcr");
            assert_eq!(e.content, content);
            assert_eq!(e.file_path, " config.yml");
            assert_eq!(e.failure_message(), "Data validation failed");
        }
        _ => panic!("expected a reference error"),
    }
    let v = DataValidator::new("config.yml", s("provider: circleci\n"));
    assert!(v.validate_config_data(Ok(docker_config("hub"))).is_ok());
    let v = DataValidator::new("config.yml", s("docker: [1, 2"));
    assert!(matches!(v.validate_config_data(Ok(docker_config("hub"))), Err(DataError::SpanParse(m)) if m.starts_with("Failed to parse YAML with spans: ")));
    let v = DataValidator::new("config.yml", s("provider: circleci\n"));
    assert!(matches!(v.validate_config_data(Err(s("bad"))), Err(DataError::ConfigParse(m)) if m == "Failed to parse config: bad"));
}

#[test]
fn data_validator_checks_service_auth() {
    let mut config = docker_config("hub");
    config.services = Some(vec![(s("db"), Service { image: s("postgres:15"), environment: None, auth: Some(s("ecr")) })]);
    let content = "services:\n  db:\n    auth: ecr\n";
    let v = DataValidator::new("config.yml", s(content));
    match v.validate_config_data(Ok(config)) {
        Err(DataError::Reference(e)) => {
            assert_eq!(e.message, "Unknown docker auth 'ecr' for service 'db'. Available auth configurations: 'hub'");
            assert_eq!(&content[e.span.start..e.span.end], "ecr");
        }
        _ => panic!("expected a reference error"),
    }
}

#[test]
fn reference_validator_checks_jobs_against_the_whole_configuration() {
    let config = Config::new(s("circleci"));
    let mut test = Job::new(s("cimg/base"));
    test.requires = Some(JobRequires::Single(s("ci/build")));
    let jobs = vec![(s("ci/test"), test), (s("ci/lint"), Job::new(s("cimg/base")))];
    let content = "requires: ci/build\n";
    let sources = vec![(s("ci/test"), JobSource { file_path: s("test.yml"), content: s(content) })];
    match ReferenceValidator::new().validate_all_references(&config, &jobs, &sources) {
        Err(ReferenceError::Data(e)) => {
            assert!(e.message.starts_with("Unknown job 'ci/build'"));
            assert_eq!(&content[e.span.start..e.span.end], "ci/build");
        }
        _ => panic!("expected a data error"),
    }
    let sources = vec![(s("ci/test"), JobSource { file_path: s("test.yml"), content: s("requires: [ci/build") })];
    match ReferenceValidator::new().validate_all_references(&config, &jobs, &sources) {
        Err(ReferenceError::SpanParse(m)) => assert!(m.starts_with("Failed to parse YAML with spans: ")),
        _ => panic!("expected a parse error"),
    }
    assert!(ReferenceValidator::new().validate_all_references(&config, &jobs, &vec![]).is_ok());
}

#[test]
fn source_submodules_need_source_files() {
    let groups = vec![s("ruby")];
    let v = SourceFilesValidator::new(&groups);
    let mut job = Job::new(s("cimg/base"));
    job.source_submodules = Some(vec![s("docs/scalar")]);
    let root = mapping(0, 40, vec![(str_node(2, 19, "source_submodules"), str_node(21, 32, "docs/scalar"))]);
    let e = v.validate_job_source_files(&job, "jobs/docs.yml", "content", &root).err().unwrap();
    assert_eq!(e.message, "source_submodules requires source_files to be configured");
    assert_eq!(e.span, SpanInfo { start: 21, end: 32 });
    assert_eq!(e.file_path, " jobs/docs.yml");

    job.source_files = Some(vec![s("@ruby")]);
    let root = mapping(
        0,
        60,
        vec![
            (str_node(2, 14, "source_files"), str_node(16, 21, "@ruby")),
            (str_node(22, 39, "source_submodules"), str_node(41, 52, "docs/scalar")),
        ],
    );
    assert!(v.validate_job_source_files(&job, "jobs/docs.yml", "content", &root).is_ok());

    job.source_files = Some(vec![s("@python")]);
    let e = v.validate_job_source_files(&job, "jobs/docs.yml", "content", &root).err().unwrap();
    assert_eq!(e.message, "Unknown source file group(s) 'python'. Available groups: 'ruby'");
}

fn referencing_job() -> Job {
    let mut job = Job::new(s("cimg/base"));
    job.services = Some(vec![s("redis")]);
    job.restore_cache = Some(vec![CacheRestore::Simple(s("gems"))]);
    job.source_files = Some(vec![s("@ruby"), s("Gemfile")]);
    job
}

#[test]
fn job_data_references_are_checked_in_order() {
    let content = "services:\n  - redis\nrestore_cache:\n  - gems\nsource_files:\n  - \"@ruby\"\n  - Gemfile\n";
    let v = DataValidator::new("jobs/test.yml", s(content));
    let mut config = Config::new(s("circleci"));
    match v.validate_job_data(&config, Ok(referencing_job())) {
        Err(DataError::Reference(e)) => {
            assert_eq!(e.message, "Unknown service 'redis'. Available services: none defined");
            assert_eq!(&content[e.span.start..e.span.end], "redis");
            assert_eq!(e.file_path, " jobs/test.yml");
        }
        _ => panic!("expected an unknown service"),
    }
    config.services = Some(vec![(s("redis"), Service { image: s("redis:7"), environment: None, auth: None })]);
    match v.validate_job_data(&config, Ok(referencing_job())) {
        Err(DataError::Reference(e)) => {
            assert_eq!(e.message, "Unknown cache 'gems'. Available cache backends: none defined");
            assert_eq!(&content[e.span.start..e.span.end], "gems");
        }
        _ => panic!("expected an unknown cache"),
    }
    config.cache_definitions = Some(vec![(s("gems"), CacheDefinition { key: None, paths: None })]);
    config.source_file_groups = Some(vec![(s("node"), vec![s("package.json")])]);
    match v.validate_job_data(&config, Ok(referencing_job())) {
        Err(DataError::Reference(e)) => {
            assert_eq!(e.message, "Unknown source file group 'ruby'. Available groups: 'node'");
            assert!(content[e.span.start..e.span.end].contains("@ruby"));
        }
        _ => panic!("expected an unknown group"),
    }
    config.source_file_groups = Some(vec![(s("ruby"), vec![s("**/*.rb")])]);
    assert_eq!(v.validate_job_data(&config, Ok(referencing_job())).ok(), Some(referencing_job()));
    assert!(matches!(v.validate_job_data(&config, Err(s("bad"))), Err(DataError::JobParse(m)) if m == "Failed to parse job: bad"));
    assert_eq!(v.refusal_message(), "Data validation failed for \"jobs/test.yml\"");
}
