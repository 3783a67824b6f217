use cigen::models::{Config, DockerBuildConfig, DockerBuildImage, DockerRegistry, Job, JobRequires};
use cigen::providers::circleci::base_hash::{aggregate_base_hash, docker_hash_patterns, file_content_hash, is_hash_excluded, order_hash_files, path_before};
use cigen::providers::circleci::docker_build::{is_full_image_ref, required_images};
use cigen::providers::circleci::generator::CircleCIGenerator;
use cigen::providers::circleci::convert::{is_pipeline_built_image, needs_docker_base_hash};
use cigen::yaml::YamlValue;

fn s(x: &str) -> String {
    x.to_string()
}

fn image(name: &str, depends_on: &[&str], push: Option<bool>) -> DockerBuildImage {
    DockerBuildImage {
        name: s(name),
        dockerfile: format!("docker/{name}.Dockerfile"),
        context: s("."),
        depends_on: depends_on.iter().map(|d| s(d)).collect(),
        build_args: None,
        hash_sources: vec![format!("docker/{name}/**"), s(".tool-versions")],
        push,
    }
}

fn docker_config() -> Config {
    let mut config = Config::new(s("circleci"));
    config.docker_build = Some(DockerBuildConfig {
        enabled: true,
        layer_caching: None,
        registry: DockerRegistry { repo: s("example/ci"), push: true },
        images: vec![image("base", &[], Some(false)), image("app", &["base"], None), image("unused", &[], None)],
    });
    config
}

fn job_on(image: &str, archs: &[&str]) -> Job {
    let mut job = Job::new(s(image));
    job.architectures = Some(archs.iter().map(|a| s(a)).collect());
    job
}

fn get<'a>(jobs: &'a [(String, Job)], name: &str) -> Option<&'a Job> {
    jobs.iter().find(|(k, _)| k == name).map(|(_, j)| j)
}

fn step_commands(job: &Job) -> Vec<String> {
    let mut out = Vec::new();
    for step in job.steps.as_ref().unwrap() {
        if let YamlValue::Mapping(entries) = step {
            for (_, v) in entries {
                if let YamlValue::Mapping(details) = v {
                    for (k, c) in details {
                        if let (YamlValue::Str(k), YamlValue::Str(c)) = (k, c) {
                            if k == "command" {
                                out.push(c.clone());
                            }
                        }
                    }
                }
            }
        }
    }
    out
}

fn requires_of(job: &Job) -> Option<Vec<String>> {
    match &job.requires {
        Some(JobRequires::Single(x)) => Some(vec![x.clone()]),
        Some(JobRequires::Multiple(v)) => Some(v.clone()),
        None => None,
    }
}

#[test]
fn full_image_references_hold_a_slash_or_colon() {
    assert!(is_full_image_ref("ruby:3.3"));
    assert!(is_full_image_ref("example/ci"));
    assert!(!is_full_image_ref("app"));
}

#[test]
fn required_images_follow_depends_on_with_job_architectures() {
    let config = docker_config();
    let images = &config.docker_build.as_ref().unwrap().images;
    let jobs = vec![(s("test"), job_on("app", &["amd64", "arm64"])), (s("lint"), job_on("ruby:3.3", &["amd64"]))];
    let req = required_images(images, &jobs);
    let mut names: Vec<String> = req.iter().map(|(n, _)| n.clone()).collect();
    names.sort();
    assert_eq!(names, vec![s("app"), s("base")]);
    for (_, archs) in &req {
        let mut a = archs.clone();
        a.sort();
        assert_eq!(a, vec![s("amd64"), s("arm64")]);
    }
}

#[test]
fn augment_adds_build_jobs_and_requirements() {
    let config = docker_config();
    let mut approve = Job::new(s("app"));
    approve.job_type = Some(s("approval"));
    let mut test_job = job_on("app", &["amd64"]);
    test_job.requires = Some(JobRequires::Single(s("setup")));
    let mut jobs = vec![
        (s("setup"), job_on("ruby:3.3", &["amd64"])),
        (s("test"), test_job),
        (s("approve"), approve),
    ];
    let generator = CircleCIGenerator::new();
    generator.augment_with_docker_build(&config, &mut jobs, "abc123");

    // a downstream job waits for the build of its image and keeps its requirements
    assert_eq!(requires_of(get(&jobs, "test").unwrap()), Some(vec![s("setup"), s("build_app")]));
    // full references and approval jobs are left alone
    assert_eq!(requires_of(get(&jobs, "setup").unwrap()), None);
    assert_eq!(requires_of(get(&jobs, "approve").unwrap()), None);
    // build jobs for the image and for what it is built on; none for unused images
    let build_app = get(&jobs, "build_app").unwrap();
    let build_base = get(&jobs, "build_base").unwrap();
    assert!(get(&jobs, "build_unused").is_none());
    assert_eq!(build_app.image, "cimg/base:current");
    assert_eq!(requires_of(build_app), Some(vec![s("build_base")]));
    assert_eq!(requires_of(build_base), None);

    let app_cmds = step_commands(build_app);
    assert!(app_cmds.contains(&s("docker build -f docker/app.Dockerfile -t example/ci/app:abc123-${DOCKER_ARCH} .")));
    // the registry pushes by default
    assert!(app_cmds.contains(&s("docker push example/ci/app:abc123-${DOCKER_ARCH}")));
    // the base image overrides the registry default and is not pushed
    let base_cmds = step_commands(build_base);
    assert!(base_cmds.contains(&s("docker build -f docker/base.Dockerfile -t example/ci/base:abc123-${DOCKER_ARCH} .")));
    assert!(!base_cmds.iter().any(|c| c.starts_with("docker push")));
}

#[test]
fn augment_without_docker_build_changes_nothing() {
    let config = Config::new(s("circleci"));
    let mut jobs = vec![(s("test"), job_on("app", &["amd64"]))];
    CircleCIGenerator::new().augment_with_docker_build(&config, &mut jobs, "abc123");
    assert_eq!(jobs.len(), 1);
    assert_eq!(requires_of(&jobs[0].1), None);
}

#[test]
fn content_hashes_are_sha256_hex() {
    assert_eq!(file_content_hash(&b"hello world".to_vec()), "b94d27b9934d3e08a52e52d7da7dabfac484efe37a5380ee9088f7ace2efcde9");
    let files = vec![(Some(s("a.txt")), s("h1")), (None, s("h2"))];
    assert_eq!(aggregate_base_hash(&files), "c314d902ad145a58e81a8b28c84a0c94abcb61d892c661dc35f521be7e7e7e58");
    assert_eq!(aggregate_base_hash(&Vec::new()), "e3b0c44298fc1c149afbf4c8996fb92427ae41e4649b934ca495991b7852b855");
}

#[test]
fn hash_exclusions_match_anywhere_in_the_path() {
    assert!(is_hash_excluded("node_modules/x.js"));
    assert!(is_hash_excluded("web/node_modules/x.js"));
    assert!(is_hash_excluded(".git/HEAD"));
    assert!(!is_hash_excluded("src/main.rs"));
    assert!(!is_hash_excluded("logs.txt"));
}

#[test]
fn docker_hash_patterns_are_collected_once_each() {
    let patterns = docker_hash_patterns(&docker_config()).unwrap();
    assert_eq!(
        patterns,
        vec![s("docker/base/**"), s(".tool-versions"), s("docker/app/**"), s("docker/unused/**")]
    );
    assert_eq!(docker_hash_patterns(&Config::new(s("circleci"))), None);
}

#[test]
fn base_hash_is_computed_once_and_remembered() {
    let config = docker_config();
    let mut generator = CircleCIGenerator::new();
    let files = vec![(Some(s("a.txt")), s("h1")), (None, s("h2"))];
    let first = generator.get_cached_docker_base_hash(&config, &files);
    assert_eq!(first, Some(s("c314d902ad145a58e81a8b28c84a0c94abcb61d892c661dc35f521be7e7e7e58")));
    // other files later: the remembered hash is kept
    let again = generator.get_cached_docker_base_hash(&config, &Vec::new());
    assert_eq!(again, first);
    generator.reset_base_hash();
    let fresh = generator.get_cached_docker_base_hash(&config, &Vec::new());
    assert_eq!(fresh, Some(s("e3b0c44298fc1c149afbf4c8996fb92427ae41e4649b934ca495991b7852b855")));
    assert_eq!(CircleCIGenerator::new().get_cached_docker_base_hash(&Config::new(s("circleci")), &files), None);
}

#[test]
fn file_hashes_read_back_what_was_recorded() {
    let mut generator = CircleCIGenerator::new();
    assert_eq!(generator.cached_file_hash("a.txt"), None);
    let h = generator.record_file_hash("a.txt", &b"hello world".to_vec());
    assert_eq!(h, "b94d27b9934d3e08a52e52d7da7dabfac484efe37a5380ee9088f7ace2efcde9");
    assert_eq!(generator.cached_file_hash("a.txt"), Some(h.clone()));
    assert_eq!(generator.cached_file_hash("b.txt"), None);
    let h2 = generator.record_file_hash("a.txt", &Vec::new());
    assert_eq!(generator.cached_file_hash("a.txt"), Some(h2));
}

#[test]
fn base_hash_is_needed_only_for_jobs_on_built_images() {
    let config = docker_config();
    let plain = vec![(s("lint"), job_on("cimg/base:current", &["amd64"])), (s("test"), job_on("ruby", &["amd64"]))];
    assert!(!needs_docker_base_hash(&config, &plain));
    let built = vec![(s("lint"), job_on("cimg/base:current", &["amd64"])), (s("test"), job_on("app", &["amd64"]))];
    assert!(needs_docker_base_hash(&config, &built));
    let mut disabled = docker_config();
    disabled.docker_build.as_mut().unwrap().enabled = false;
    assert!(!needs_docker_base_hash(&disabled, &built));
    assert!(is_pipeline_built_image(&config, "base"));
    assert!(!is_pipeline_built_image(&config, "example/base:1"));
}

#[test]
fn base_hashes_are_lowercase_hex() {
    let h = aggregate_base_hash(&vec![(Some(s("Dockerfile")), file_content_hash(&b"FROM x".to_vec()))]);
    assert_eq!(h.len(), 64);
    assert!(h.chars().all(|c| c.is_ascii_digit() || ('a'..='f').contains(&c)));
}

#[test]
fn hash_files_are_ordered_by_path_and_kept_once() {
    let found = vec![s("/p/a-b/x"), s("/p/a/b"), s("/p/Gemfile"), s("/p/a/b"), s("/p/a.txt")];
    let ordered = order_hash_files(&found);
    assert_eq!(ordered, vec![s("/p/Gemfile"), s("/p/a/b"), s("/p/a-b/x"), s("/p/a.txt")]);
    let mut reversed = found.clone();
    reversed.reverse();
    assert_eq!(order_hash_files(&reversed), ordered);
    assert!(path_before("a/b", "a-b"));
    assert!(!path_before("a-b", "a/b"));
    assert!(path_before("a", "a/b"));
    assert!(!path_before("a", "a"));
}
