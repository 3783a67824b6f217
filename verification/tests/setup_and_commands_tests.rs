use cigen::models::{Command, CommandStep, Config, Job};
use cigen::providers::circleci::setup::{is_dynamic_pipeline, main_workflow_index};
use cigen::providers::circleci::config::{CircleCIConfig, CircleCIJob, CircleCIStep, CircleCIWorkflowJob};
use cigen::providers::circleci::generator::CircleCIGenerator;
use cigen::yaml::YamlValue;

fn s(x: &str) -> String {
    x.to_string()
}

fn step_command(step: &YamlValue) -> Option<String> {
    if let YamlValue::Mapping(entries) = step {
        for (_, v) in entries {
            if let YamlValue::Mapping(details) = v {
                for (k, c) in details {
                    if let (YamlValue::Str(k), YamlValue::Str(c)) = (k, c) {
                        if k == "command" {
                            return Some(c.clone());
                        }
                    }
                }
            }
        }
    }
    None
}

fn job_with_steps(steps: Vec<YamlValue>) -> CircleCIJob {
    CircleCIJob {
        executor: None,
        docker: None,
        machine: None,
        resource_class: None,
        working_directory: None,
        parallelism: None,
        environment: None,
        parameters: None,
        steps: steps.into_iter().map(CircleCIStep::new).collect(),
    }
}

fn command(steps: Vec<CommandStep>) -> Command {
    Command { description: s("a command"), parameters: None, steps }
}

#[test]
fn synthesized_setup_has_one_generating_job() {
    let mut config = Config::new(s("circleci"));
    config.orbs = Some(vec![(s("node"), s("circleci/node@5"))]);
    let cc = CircleCIGenerator::new().build_synthesized_setup_config(&config);
    assert_eq!(cc.version, "2.1");
    assert_eq!(cc.setup, Some(true));
    assert_eq!(cc.orbs, Some(vec![(s("node"), s("circleci/node@5"))]));
    assert_eq!(cc.workflows.len(), 1);
    assert_eq!(cc.workflows[0].0, "setup");
    assert_eq!(cc.workflows[0].1.jobs, vec![CircleCIWorkflowJob::Simple(s("generate_config"))]);
    assert_eq!(cc.jobs.len(), 1);
    let job = &cc.jobs[0].1;
    assert_eq!(cc.jobs[0].0, "generate_config");
    assert_eq!(job.docker.as_ref().unwrap()[0].image, "cimg/ruby:3.3.5");
    assert_eq!(job.resource_class, Some(s("small")));
    assert_eq!(job.steps.len(), 3);
    assert_eq!(job.steps[0].raw, YamlValue::Str(s("checkout")));
    assert_eq!(step_command(&job.steps[1].raw), Some(s("cigen generate")));
    assert!(step_command(&job.steps[2].raw).unwrap().contains("https://circleci.com/api/v2/pipeline/continue"));
}

#[test]
fn dynamic_combined_config_gates_conditional_workflows() {
    let config = Config::new(s("circleci"));
    let workflows = vec![
        (s("main"), vec![(s("build"), Job::new(s("cimg/ruby:3.3.5")))]),
        (s("package_updates"), vec![(s("update"), Job::new(s("cimg/ruby:3.3.5")))]),
    ];
    let cc = CircleCIGenerator::new().build_dynamic_combined_config(&config, &workflows, None).unwrap();
    assert_eq!(cc.setup, Some(true));
    let mut names: Vec<String> = cc.workflows.iter().map(|(k, _)| k.clone()).collect();
    names.sort();
    assert_eq!(names, vec![s("package_updates"), s("setup")]);
    let mut jobs: Vec<String> = cc.jobs.iter().map(|(k, _)| k.clone()).collect();
    jobs.sort();
    assert_eq!(jobs, vec![s("generate_config"), s("update")]);
    let setup = &cc.jobs.iter().find(|(k, _)| k == "generate_config").unwrap().1;
    assert_eq!(setup.docker.as_ref().unwrap()[0].image, "cimg/base:current");
    assert_eq!(setup.steps[0].raw, YamlValue::Str(s("checkout")));
    assert_eq!(step_command(&setup.steps[2].raw), Some(s("cigen generate --workflow main")));
    let updates = &cc.workflows.iter().find(|(k, _)| k == "package_updates").unwrap().1;
    assert_eq!(
        updates.when,
        Some(YamlValue::Mapping(vec![(
            YamlValue::Str(s("equal")),
            YamlValue::Sequence(vec![
                YamlValue::Str(s("true")),
                YamlValue::Str(s("<< pipeline.parameters.check_package_versions >>")),
            ]),
        )]))
    );
    assert!(updates.unless.is_none());
    assert_eq!(updates.jobs.len(), 1);
}

#[test]
fn used_commands_include_what_they_refer_to() {
    let mut cc = CircleCIConfig::new();
    cc.jobs.push((
        s("test"),
        job_with_steps(vec![
            YamlValue::Mapping(vec![(YamlValue::Str(s("my_cmd")), YamlValue::Mapping(vec![]))]),
            YamlValue::Mapping(vec![(YamlValue::Str(s("cigen_calculate_sha256")), YamlValue::Mapping(vec![]))]),
        ]),
    ));
    let commands = vec![
        (s("my_cmd"), command(vec![CommandStep::CommandRef(s("helper"))])),
        (s("helper"), command(vec![CommandStep::Raw(YamlValue::Mapping(vec![(YamlValue::Str(s("deep")), YamlValue::Null)]))])),
        (s("deep"), command(vec![CommandStep::Simple { name: s("Say"), run: s("echo hi"), when: None }])),
        (s("unused"), command(vec![])),
    ];
    let generator = CircleCIGenerator::new();
    let mut used = generator.scan_for_user_commands(&cc, &commands);
    used.sort();
    assert_eq!(used, vec![s("deep"), s("helper"), s("my_cmd")]);
    assert_eq!(generator.scan_for_template_commands(&cc), vec![s("cigen_calculate_sha256")]);
}

#[test]
fn all_workflows_are_assembled_into_one_configuration() {
    let config = Config::new(s("circleci"));
    let mut ship = Job::new(s("cimg/base:current"));
    ship.architectures = Some(vec![s("amd64"), s("arm64")]);
    let workflows = vec![
        (s("ci"), vec![(s("test"), Job::new(s("cimg/ruby:3.3.5")))]),
        (s("deploy"), vec![(s("ship"), ship)]),
    ];
    let cc = CircleCIGenerator::new().build_all_config(&config, workflows, &Vec::new(), None).unwrap();
    let mut jobs: Vec<String> = cc.jobs.iter().map(|(k, _)| k.clone()).collect();
    jobs.sort();
    assert_eq!(jobs, vec![s("ship_amd64"), s("ship_arm64"), s("test")]);
    let mut wfs: Vec<String> = cc.workflows.iter().map(|(k, _)| k.clone()).collect();
    wfs.sort();
    assert_eq!(wfs, vec![s("ci"), s("deploy")]);
}

#[test]
fn glob_patterns_split_at_their_root() {
    assert_eq!(CircleCIGenerator::split_pattern_root("docker/**/*.erb"), (s("docker"), s("**/*.erb"), true));
    assert_eq!(CircleCIGenerator::split_pattern_root("*.rb"), (s("."), s("*.rb"), true));
    assert_eq!(CircleCIGenerator::split_pattern_root("scripts/a/b?.sh"), (s("scripts/a"), s("b?.sh"), true));
    assert_eq!(CircleCIGenerator::split_pattern_root(".tool-versions"), (s(".tool-versions"), s(""), false));
}

#[test]
fn skip_and_completion_steps_are_appended() {
    let generator = CircleCIGenerator::new();
    let mut config = Config::new(s("circleci"));
    config.source_file_groups = Some(vec![(s("ruby"), vec![s("**/*.rb")])]);
    let mut job = job_with_steps(vec![YamlValue::Str(s("checkout"))]);
    generator
        .add_skip_check_initial_steps(&mut job, &config, &vec![s("@ruby"), s("Gemfile")], &vec![s("vendor/gem")], "rspec", "amd64")
        .unwrap();
    assert_eq!(job.steps.len(), 4);
    let sub = job.steps[1].raw.get("cigen_write_submodule_commit_hash").unwrap();
    assert_eq!(sub.get("submodule").unwrap().as_str(), Some("vendor/gem"));
    assert_eq!(sub.get("output_file").unwrap().as_str(), Some("/tmp/cigen/submodule-hashes/rspec-vendor-gem.commit"));
    let hash = job.steps[2].raw.get("cigen_calculate_sha256").unwrap();
    assert_eq!(hash.get("patterns").unwrap().as_str(), Some("**/*.rb\nGemfile"));
    assert_eq!(hash.get("unfiltered_patterns").unwrap().as_str(), Some("/tmp/cigen/submodule-hashes/rspec-vendor-gem.commit"));
    assert!(step_command(&job.steps[3].raw).unwrap().contains("Skipping"));
    generator.add_record_completion_step(&mut job, "rspec", "amd64");
    assert_eq!(job.steps.len(), 7);
    let exists = job.steps[6].raw.get("save_cache").unwrap();
    assert_eq!(
        exists.get("key").unwrap().as_str(),
        Some("job_status-exists-v1-rspec-amd64-{{ checksum \"/tmp/cigen_job_status/job-key\" }}")
    );
    let before = job.steps.len();
    let missing = generator.add_skip_check_initial_steps(&mut job, &config, &vec![s("@nope")], &vec![], "rspec", "amd64");
    assert!(missing.is_err());
    assert_eq!(job.steps.len(), before);
}

#[test]
fn dynamic_pipelines_and_the_main_workflow_are_recognised() {
    let mut config = Config::new(s("circleci"));
    assert!(!is_dynamic_pipeline(&config));
    config.dynamic = Some(true);
    assert!(is_dynamic_pipeline(&config));
    let mut github = Config::new(s("github"));
    github.dynamic = Some(true);
    assert!(!is_dynamic_pipeline(&github));
    let workflows = vec![(s("setup"), vec![]), (s("main"), vec![]), (s("main"), vec![])];
    assert_eq!(main_workflow_index(&workflows), Some(1));
    assert_eq!(main_workflow_index(&vec![(s("other"), vec![])]), None);
}
