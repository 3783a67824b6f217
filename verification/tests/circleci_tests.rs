use cigen::models::{Config, DockerImageConfig};
use cigen::providers::circleci::builtin_steps;
use cigen::providers::circleci::docker_images::{generate_docker_anchors, resolve_docker_image};
use cigen::providers::circleci::schema;
use cigen::providers::circleci::template_commands::{get_template_command, is_template_command, template_commands};

fn create_test_config() -> Config {
    let ruby_architectures = vec![
        ("amd64".to_string(), "cimg/ruby:3.3.5".to_string()),
        ("arm64".to_string(), "cimg/ruby:3.3.5-arm64".to_string()),
    ];
    let docker_images = vec![
        (
            "ruby".to_string(),
            DockerImageConfig {
                default: "cimg/ruby:3.3.5".to_string(),
                architectures: Some(ruby_architectures),
            },
        ),
        (
            "node".to_string(),
            DockerImageConfig {
                default: "cimg/node:18.17.1".to_string(),
                architectures: None,
            },
        ),
    ];
    let mut config = Config::new(String::new());
    config.docker_images = Some(docker_images);
    config
}

fn anchor<'a>(anchors: &'a [(String, String)], key: &str) -> Option<&'a String> {
    anchors.iter().find(|(k, _)| k == key).map(|(_, v)| v)
}

#[test]
fn test_builtin_steps() {
    assert!(builtin_steps::is_builtin_step("checkout"));
    assert!(builtin_steps::is_builtin_step("run"));
    assert!(builtin_steps::is_builtin_step("save_cache"));
    assert!(!builtin_steps::is_builtin_step("custom_step"));
    assert!(!builtin_steps::is_builtin_step("my_command"));
}

#[test]
fn test_builtin_steps_extracted() {
    assert!(schema::is_builtin_step("checkout"));
    assert!(schema::is_builtin_step("run"));
    assert!(schema::is_builtin_step("save_cache"));
    assert!(schema::is_builtin_step("restore_cache"));
    assert!(schema::is_builtin_step("store_artifacts"));
    assert!(schema::is_builtin_step("store_test_results"));
    assert!(schema::is_builtin_step("persist_to_workspace"));
    assert!(schema::is_builtin_step("attach_workspace"));
    assert!(schema::is_builtin_step("add_ssh_keys"));
    assert!(schema::is_builtin_step("setup_remote_docker"));
    assert!(schema::is_builtin_step("when"));
    assert!(schema::is_builtin_step("unless"));
    assert!(schema::is_builtin_step("deploy"));

    assert!(!schema::is_builtin_step("custom_step"));
    assert!(!schema::is_builtin_step("my_command"));
    assert!(!schema::is_builtin_step("continue_circleci_pipeline"));
}

#[test]
fn test_template_commands_loaded() {
    assert!(is_template_command("continue_circleci_pipeline"));
    assert!(is_template_command("cigen_shallow_checkout"));
    assert!(is_template_command("cigen_write_submodule_commit_hash"));
    assert!(!is_template_command("unknown_command"));
}

#[test]
fn template_command_for_hashing_is_known() {
    assert!(is_template_command("cigen_calculate_sha256"));
    assert!(!is_template_command("cigen_calculate"));
}

#[test]
fn test_resolve_docker_image_with_architecture() {
    let config = create_test_config();

    let result = resolve_docker_image("ruby", Some("arm64"), &config).unwrap();
    assert_eq!(result, "cimg/ruby:3.3.5-arm64");

    let result = resolve_docker_image("ruby", Some("amd64"), &config).unwrap();
    assert_eq!(result, "cimg/ruby:3.3.5");
}

#[test]
fn test_resolve_docker_image_fallback_to_default() {
    let config = create_test_config();

    let result = resolve_docker_image("ruby", Some("unknown"), &config).unwrap();
    assert_eq!(result, "cimg/ruby:3.3.5");

    let result = resolve_docker_image("ruby", None, &config).unwrap();
    assert_eq!(result, "cimg/ruby:3.3.5");

    let result = resolve_docker_image("node", Some("arm64"), &config).unwrap();
    assert_eq!(result, "cimg/node:18.17.1");
}

#[test]
fn test_resolve_docker_image_full_reference() {
    let config = create_test_config();

    let result = resolve_docker_image("postgres:14.9", None, &config).unwrap();
    assert_eq!(result, "postgres:14.9");

    let result = resolve_docker_image("cimg/postgres:14.9", Some("arm64"), &config).unwrap();
    assert_eq!(result, "cimg/postgres:14.9");
}

#[test]
fn test_resolve_docker_image_not_found() {
    let config = create_test_config();

    let result = resolve_docker_image("nonexistent", None, &config);
    assert!(result.is_err());
    assert!(result
        .unwrap_err()
        .contains("not found in docker_images configuration"));
}

#[test]
fn resolve_docker_image_without_images_configured() {
    let config = Config::new("circleci".to_string());
    let result = resolve_docker_image("ruby", None, &config);
    assert_eq!(
        result,
        Err("Docker image 'ruby' not found - no docker_images configuration".to_string())
    );
}

#[test]
fn test_generate_docker_anchors() {
    let config = create_test_config();
    let anchors = generate_docker_anchors(&config);

    assert_eq!(anchor(&anchors, "ruby_image").unwrap(), "cimg/ruby:3.3.5");
    assert_eq!(anchor(&anchors, "node_image").unwrap(), "cimg/node:18.17.1");

    assert_eq!(anchor(&anchors, "ruby_image_amd64").unwrap(), "cimg/ruby:3.3.5");
    assert_eq!(
        anchor(&anchors, "ruby_image_arm64").unwrap(),
        "cimg/ruby:3.3.5-arm64"
    );

    assert!(anchor(&anchors, "node_image_amd64").is_none());
    assert_eq!(anchors.len(), 4);
}

#[test]
fn docker_anchors_later_image_overrides_same_anchor() {
    let mut config = Config::new(String::new());
    config.docker_images = Some(vec![
        (
            "a".to_string(),
            DockerImageConfig {
                default: "img/a:1".to_string(),
                architectures: Some(vec![("image".to_string(), "img/a:image".to_string())]),
            },
        ),
        (
            "a_image".to_string(),
            DockerImageConfig {
                default: "img/b:1".to_string(),
                architectures: None,
            },
        ),
    ]);
    let anchors = generate_docker_anchors(&config);
    assert_eq!(anchors.len(), 2);
    assert_eq!(anchor(&anchors, "a_image").unwrap(), "img/a:1");
    assert_eq!(anchor(&anchors, "a_image_image").unwrap(), "img/b:1");
}

#[test]
fn test_get_template_command() {
    let cmd = get_template_command("continue_circleci_pipeline");
    assert!(cmd.is_some());

    let cmd_value = cmd.unwrap();
    assert!(cmd_value.description.is_some());
    assert!(cmd_value.parameters.is_some());
    assert!(!cmd_value.steps.is_empty());
}

#[test]
fn test_shallow_checkout_command() {
    let cmd = get_template_command("cigen_shallow_checkout");
    assert!(cmd.is_some());

    let cmd_value = cmd.unwrap();
    assert!(cmd_value.description.is_some());
    assert!(cmd_value.parameters.is_some());
    assert!(!cmd_value.steps.is_empty());

    // Check that expected parameters exist
    let params = cmd_value.parameters.unwrap();
    let has = |name: &str| params.iter().any(|(k, _)| k == name);
    assert!(has("clone_options"));
    assert!(has("fetch_options"));
    assert!(has("keyscan_github"));
    assert!(has("keyscan_gitlab"));
    assert!(has("keyscan_bitbucket"));
}

#[test]
fn template_command_list_names_each_builtin_once() {
    let names: Vec<String> = template_commands().into_iter().map(|(k, _)| k).collect();
    assert_eq!(
        names,
        vec![
            "continue_circleci_pipeline".to_string(),
            "cigen_shallow_checkout".to_string(),
            "cigen_write_submodule_commit_hash".to_string(),
            "cigen_calculate_sha256".to_string(),
        ]
    );
    assert!(get_template_command("unknown_command").is_none());
    let sub = get_template_command("cigen_write_submodule_commit_hash").unwrap();
    let params: Vec<String> = sub.parameters.unwrap().into_iter().map(|(k, _)| k).collect();
    assert_eq!(params, vec!["submodule".to_string(), "output_file".to_string()]);
}
