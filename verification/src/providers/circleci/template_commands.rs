//! Commands that cigen provides to generated CircleCI configurations.

use vstd::prelude::*;
use vstd::string::*;
use crate::strutil::{str_eq, to_owned_string};
use crate::models::{unique_keys, has_key};
use crate::yaml::{YamlValue, ystr};
use super::config::{CircleCICommand, CircleCIParameter, CircleCIStep};

verus! {

/// Names of the built-in template commands.
pub open spec fn template_command_names() -> Seq<Seq<char>> {
    seq![
        "continue_circleci_pipeline"@,
        "cigen_shallow_checkout"@,
        "cigen_write_submodule_commit_hash"@,
        "cigen_calculate_sha256"@,
    ]
}

/// Whether `name` is a built-in template command.
pub open spec fn spec_is_template_command(name: Seq<char>) -> bool {
    template_command_names().contains(name)
}

/// Check if a command name is a template command.
pub fn is_template_command(command_name: &str) -> (r: bool)
    ensures
        r == spec_is_template_command(command_name@),
{
    let ghost names = template_command_names();
    let r = str_eq(command_name, "continue_circleci_pipeline")
        || str_eq(command_name, "cigen_shallow_checkout")
        || str_eq(command_name, "cigen_write_submodule_commit_hash")
        || str_eq(command_name, "cigen_calculate_sha256");
    proof {
        if r {
            assert(names.contains(command_name@)) by {
                if command_name@ == names[0] {} else if command_name@ == names[1] {}
                else if command_name@ == names[2] {} else { assert(command_name@ == names[3]); }
            }
        } else {
            assert(!names.contains(command_name@)) by {
                if names.contains(command_name@) {
                    let k = choose|k: int| 0 <= k < names.len() && names[k] == command_name@;
                    assert(0 <= k < 4);
                }
            }
        }
    }
    r
}

/// A string parameter declaration.
fn string_param(description: &str, default: Option<&str>) -> CircleCIParameter {
    CircleCIParameter::String {
        param_type: to_owned_string("string"),
        default: match default { Some(d) => Some(to_owned_string(d)), None => None },
        description: Some(to_owned_string(description)),
    }
}

/// A boolean parameter declaration.
fn bool_param(description: &str, default: bool) -> CircleCIParameter {
    CircleCIParameter::Boolean {
        param_type: to_owned_string("boolean"),
        default: Some(default),
        description: Some(to_owned_string(description)),
    }
}

/// A `run` step with a name, an environment and a command.
fn run_with_env(name: &str, env: Vec<(YamlValue, YamlValue)>, command: &str) -> YamlValue {
    let mut details: Vec<(YamlValue, YamlValue)> = Vec::new();
    details.push((ystr("name"), ystr(name)));
    details.push((ystr("environment"), YamlValue::Mapping(env)));
    details.push((ystr("command"), ystr(command)));
    let mut step: Vec<(YamlValue, YamlValue)> = Vec::new();
    step.push((ystr("run"), YamlValue::Mapping(details)));
    YamlValue::Mapping(step)
}

/// The `continue_circleci_pipeline` template command.
fn continue_circleci_pipeline_command() -> CircleCICommand {
    let mut params: Vec<(String, CircleCIParameter)> = Vec::new();
    params.push((to_owned_string("config_path"), string_param("Path to the configuration file to continue with", Some(".circleci/dynamic_config.yml"))));
    let mut steps: Vec<CircleCIStep> = Vec::new();
    let mut env: Vec<(YamlValue, YamlValue)> = Vec::new();
    env.push((ystr("CONFIG_PATH"), ystr("<< parameters.config_path >>")));
    steps.push(CircleCIStep::new(run_with_env("Continue Pipeline", env, "# Continue with pipeline\nif [ -z \"${CIRCLE_CONTINUATION_KEY}\" ]; then\n    echo \"CIRCLE_CONTINUATION_KEY is required. Make sure setup workflows are enabled.\"\n    exit 1\nfi\n\nif [ -z \"${CONFIG_PATH}\" ]; then\n    echo \"CONFIG_PATH is required.\"\n    exit 1\nfi\n\n# Using --rawfile to read config from file\njq -n \\\n  --arg continuation \"$CIRCLE_CONTINUATION_KEY\" \\\n  --rawfile config \"$CONFIG_PATH\" \\\n  '{\"continuation-key\": $continuation, \"configuration\": $config}' \\\n  > /tmp/continuation.json\n\necho \"Next CircleCI config:\"\ncat /tmp/continuation.json\n\n[[ $(curl \\\n        -o /dev/stderr \\\n        -w '%{http_code}' \\\n        -XPOST \\\n        -H \"Content-Type: application/json\" \\\n        -H \"Accept: application/json\"  \\\n        --data \"@/tmp/continuation.json\" \\\n        \"https://circleci.com/api/v2/pipeline/continue\") \\\n  -eq 200 ]]\n")));
    CircleCICommand { description: Some(to_owned_string("Continue a CircleCI pipeline with a dynamic configuration")), parameters: Some(params), steps }
}

/// The `cigen_shallow_checkout` template command.
fn cigen_shallow_checkout_command() -> CircleCICommand {
    let mut params: Vec<(String, CircleCIParameter)> = Vec::new();
    params.push((to_owned_string("clone_options"), string_param("Options passed to git clone", Some("--depth 1"))));
    params.push((to_owned_string("fetch_options"), string_param("Options passed to git fetch for a branch", Some("--depth 10"))));
    params.push((to_owned_string("tag_fetch_options"), string_param("Options passed to git fetch for a tag", Some("--tags"))));
    params.push((to_owned_string("keyscan_github"), bool_param("Add the SSH host key of github.com to known_hosts", false)));
    params.push((to_owned_string("keyscan_gitlab"), bool_param("Add the SSH host key of gitlab.com to known_hosts", false)));
    params.push((to_owned_string("keyscan_bitbucket"), bool_param("Add the SSH host key of bitbucket.org to known_hosts", false)));
    params.push((to_owned_string("path"), string_param("Directory to check the repository out into", Some("."))));
    let mut steps: Vec<CircleCIStep> = Vec::new();
    let mut env: Vec<(YamlValue, YamlValue)> = Vec::new();
    env.push((ystr("CLONE_OPTIONS"), ystr("<< parameters.clone_options >>")));
    env.push((ystr("FETCH_OPTIONS"), ystr("<< parameters.fetch_options >>")));
    env.push((ystr("TAG_FETCH_OPTIONS"), ystr("<< parameters.tag_fetch_options >>")));
    env.push((ystr("KEYSCAN_GITHUB"), ystr("<< parameters.keyscan_github >>")));
    env.push((ystr("KEYSCAN_GITLAB"), ystr("<< parameters.keyscan_gitlab >>")));
    env.push((ystr("KEYSCAN_BITBUCKET"), ystr("<< parameters.keyscan_bitbucket >>")));
    env.push((ystr("CHECKOUT_PATH"), ystr("<< parameters.path >>")));
    steps.push(CircleCIStep::new(run_with_env("Checkout code (shallow)", env, "set -e\nif [ \"${HOME}\" = \"/\" ]; then\n  export HOME=$(getent passwd \"$(id -un)\" | cut -d: -f6)\nfi\nmkdir -p ~/.ssh\nchmod 0700 ~/.ssh\ntouch ~/.ssh/known_hosts\nif [ \"${KEYSCAN_GITHUB}\" = \"true\" ]; then\n  ssh-keyscan -H github.com >> ~/.ssh/known_hosts\nfi\nif [ \"${KEYSCAN_GITLAB}\" = \"true\" ]; then\n  ssh-keyscan -H gitlab.com >> ~/.ssh/known_hosts\nfi\nif [ \"${KEYSCAN_BITBUCKET}\" = \"true\" ]; then\n  ssh-keyscan -H bitbucket.org >> ~/.ssh/known_hosts\nfi\nif [ -n \"${CHECKOUT_KEY:-}\" ]; then\n  (umask 077; printf '%s\\n' \"${CHECKOUT_KEY}\" > ~/.ssh/id_rsa)\n  export GIT_SSH_COMMAND='ssh -i ~/.ssh/id_rsa -o UserKnownHostsFile=~/.ssh/known_hosts'\nfi\ngit config --global gc.auto 0 || true\nmkdir -p \"${CHECKOUT_PATH}\"\ncd \"${CHECKOUT_PATH}\"\nif [ -e .git ]; then\n  git remote set-url origin \"${CIRCLE_REPOSITORY_URL}\"\nelse\n  git clone ${CLONE_OPTIONS} \"${CIRCLE_REPOSITORY_URL}\" .\nfi\nif [ -n \"${CIRCLE_TAG:-}\" ]; then\n  git fetch ${TAG_FETCH_OPTIONS} --force origin \"refs/tags/${CIRCLE_TAG}:refs/tags/${CIRCLE_TAG}\"\n  git checkout -q --force \"${CIRCLE_TAG}\"\nelse\n  git fetch ${FETCH_OPTIONS} --force origin \"+refs/heads/${CIRCLE_BRANCH}:refs/remotes/origin/${CIRCLE_BRANCH}\"\n  git checkout -q --force -B \"${CIRCLE_BRANCH}\" \"${CIRCLE_SHA1}\"\nfi\ngit reset --hard \"${CIRCLE_SHA1}\"\n")));
    CircleCICommand { description: Some(to_owned_string("Check out the repository with a shallow clone")), parameters: Some(params), steps }
}

/// The `cigen_write_submodule_commit_hash` template command.
fn cigen_write_submodule_commit_hash_command() -> CircleCICommand {
    let mut params: Vec<(String, CircleCIParameter)> = Vec::new();
    params.push((to_owned_string("submodule"), string_param("Path of the submodule", None)));
    params.push((to_owned_string("output_file"), string_param("File to write the commit to", None)));
    let mut steps: Vec<CircleCIStep> = Vec::new();
    let mut env: Vec<(YamlValue, YamlValue)> = Vec::new();
    env.push((ystr("SUBMODULE"), ystr("<< parameters.submodule >>")));
    env.push((ystr("OUTPUT_FILE"), ystr("<< parameters.output_file >>")));
    steps.push(CircleCIStep::new(run_with_env("Record submodule commit", env, "set -euo pipefail\nmkdir -p \"$(dirname \"${OUTPUT_FILE}\")\"\ngit ls-tree HEAD \"${SUBMODULE}\" | awk '{print $3}' > \"${OUTPUT_FILE}\"\nif [ ! -s \"${OUTPUT_FILE}\" ]; then\n  echo \"No submodule recorded at ${SUBMODULE}\" >&2\n  exit 1\nfi\necho \"Commit of ${SUBMODULE}: $(cat \"${OUTPUT_FILE}\")\"\n")));
    CircleCICommand { description: Some(to_owned_string("Write the commit a submodule is recorded at to a file")), parameters: Some(params), steps }
}

/// The `cigen_calculate_sha256` template command.
fn cigen_calculate_sha256_command() -> CircleCICommand {
    let mut params: Vec<(String, CircleCIParameter)> = Vec::new();
    params.push((to_owned_string("patterns"), string_param("Newline-separated list of path patterns", None)));
    params.push((to_owned_string("ignorefile"), string_param("Optional path to an ignore file to filter matches", Some(""))));
    params.push((to_owned_string("add_ci_files"), bool_param("Include .circleci/* and ./scripts/ci/* in the hash", true)));
    params.push((to_owned_string("unfiltered_patterns"), string_param("Optional newline-separated patterns that bypass ignore filtering", Some(""))));
    let mut steps: Vec<CircleCIStep> = Vec::new();
    let mut env: Vec<(YamlValue, YamlValue)> = Vec::new();
    env.push((ystr("PATTERNS"), ystr("<< parameters.patterns >>")));
    env.push((ystr("IGNOREFILE"), ystr("<< parameters.ignorefile >>")));
    env.push((ystr("ADD_CI"), ystr("<< parameters.add_ci_files >>")));
    env.push((ystr("UNFILTERED_PATTERNS"), ystr("<< parameters.unfiltered_patterns >>")));
    steps.push(CircleCIStep::new(run_with_env("Calculate source file hash", env, "set -euo pipefail\n\nif [ -z \"${PATTERNS:-}\" ]; then\n  echo \"Please provide at least one pattern\" >&2\n  exit 1\nfi\n\nif [ -z \"${CI:-}\" ]; then\n  rm -rf /tmp/sha256-patterns\nfi\n\nmkdir -p /tmp/sha256-patterns\nmkdir -p /tmp/cigen\n\nsha() {\n  if command -v sha256sum >/dev/null 2>&1; then\n    sha256sum\n  else\n    shasum -a 256\n  fi\n}\n\nlist_files() {\n  git ls-files -s --cached --modified --others --exclude-standard -- \"$@\" |\n    grep -v '^16 ' | cut -f2- | LC_ALL=C sort -u || true\n}\n\n_CIGEN_IGNORE_ACTIVE=0\n_CIGEN_GITIGNORE_BACKUP=\"\"\n\nrestore_gitignore() {\n  if [ \"${_CIGEN_IGNORE_ACTIVE}\" -eq 1 ]; then\n    if [ -n \"${_CIGEN_GITIGNORE_BACKUP}\" ]; then\n      mv \"${_CIGEN_GITIGNORE_BACKUP}\" .gitignore\n    else\n      rm -f .gitignore\n    fi\n    _CIGEN_IGNORE_ACTIVE=0\n    _CIGEN_GITIGNORE_BACKUP=\"\"\n  fi\n}\n\ncalculate_hash_for_pattern() {\n  local pattern=\"$1\"\n  local cache_key\n  local cache_path\n  local matched\n  local hash\n\n  cache_key=$(printf '%s;%s' \"$pattern\" \"${IGNOREFILE}\" | sha | cut -d' ' -f1)\n  cache_path=\"/tmp/sha256-patterns/${cache_key}\"\n\n  if [ -f \"$cache_path\" ]; then\n    cat \"$cache_path\"\n    return 0\n  fi\n\n  if [ -f \"$pattern\" ]; then\n    matched=\"$pattern\"\n  else\n    matched=\"$(list_files \"$pattern\")\"\n  fi\n\n  if [ -z \"$matched\" ]; then\n    echo \"ERROR: No files matched '$pattern'\" >&2\n    exit 1\n  fi\n\n  if [ -n \"${IGNOREFILE}\" ]; then\n    _CIGEN_IGNORE_ACTIVE=1\n    if [ -f .gitignore ]; then\n      _CIGEN_GITIGNORE_BACKUP=\".gitignore.cigen-backup\"\n      cp .gitignore \"${_CIGEN_GITIGNORE_BACKUP}\"\n    else\n      _CIGEN_GITIGNORE_BACKUP=\"\"\n    fi\n\n    cp \"${IGNOREFILE}\" .gitignore\n\n    filtered=\"$(printf '%s\\n' \"$matched\" | git check-ignore -v -n --no-index --stdin 2>/dev/null || true)\"\n    matched=\"$(printf '%s\\n' \"$filtered\" | awk -F'\\t' '/^::/ {print $2}' | LC_ALL=C sort -u)\"\n\n    restore_gitignore\n    if [ -z \"$matched\" ]; then\n      echo \"ERROR: No files matched '$pattern' after filtering\" >&2\n      exit 1\n    fi\n  fi\n\n  hash=\"$(printf '%s\\n' \"$matched\" | xargs sha | cut -d' ' -f1 | sha | cut -d' ' -f1)\"\n  printf '%s' \"$hash\" > \"$cache_path\"\n  printf '%s' \"$hash\"\n}\n\nOLD_IFS=$IFS\nIFS=$'\\n'\nset -f\n\ncombined=\"\"\nfor pat in $PATTERNS; do\n  [ -z \"$pat\" ] && continue\n  combined=\"${combined}$(calculate_hash_for_pattern \"$pat\")\"\ndone\n\nif [ -n \"${UNFILTERED_PATTERNS}\" ]; then\n  for pat in $UNFILTERED_PATTERNS; do\n    [ -z \"$pat\" ] && continue\n    combined=\"${combined}$(IGNOREFILE=\"\" calculate_hash_for_pattern \"$pat\")\"\n  done\nfi\n\nif [ \"${ADD_CI}\" = \"true\" ]; then\n  for pat in '.circleci/*' './scripts/ci/*'; do\n    combined=\"${combined}$(IGNOREFILE=\"\" calculate_hash_for_pattern \"$pat\")\"\n  done\nfi\n\nset +f\nIFS=$OLD_IFS\n\nJOB_HASH=$(printf '%s' \"$combined\" | sha | cut -d' ' -f1)\nprintf '%s' \"$JOB_HASH\" > /tmp/cigen/job_hash\necho \"Hash calculated: $JOB_HASH\"\n")));
    CircleCICommand { description: Some(to_owned_string("Calculate a stable SHA-256 over file patterns with caching; exports JOB_HASH")), parameters: Some(params), steps }
}

/// The built-in template commands, each under its name.
pub fn template_commands() -> (r: Vec<(String, CircleCICommand)>)
    ensures
        unique_keys(r@),
        forall|n: Seq<char>| has_key(r@, n) <==> spec_is_template_command(n),
{
    proof {
        reveal_strlit("continue_circleci_pipeline");
        reveal_strlit("cigen_shallow_checkout");
        reveal_strlit("cigen_write_submodule_commit_hash");
        reveal_strlit("cigen_calculate_sha256");
    }
    let mut r: Vec<(String, CircleCICommand)> = Vec::new();
    r.push((to_owned_string("continue_circleci_pipeline"), continue_circleci_pipeline_command()));
    r.push((to_owned_string("cigen_shallow_checkout"), cigen_shallow_checkout_command()));
    r.push((to_owned_string("cigen_write_submodule_commit_hash"), cigen_write_submodule_commit_hash_command()));
    r.push((to_owned_string("cigen_calculate_sha256"), cigen_calculate_sha256_command()));
    let ghost names = template_command_names();
    assert(forall|i: int| 0 <= i < 4 ==> (#[trigger] r@[i]).0@ == names[i]);
    assert(names[0].len() != names[1].len() && names[0].len() != names[2].len() && names[0].len() != names[3].len());
    assert(names[1].len() != names[2].len() && names[2].len() != names[3].len());
    assert(names[1][6] != names[3][6]);
    assert forall|n: Seq<char>| has_key(r@, n) <==> spec_is_template_command(n) by {
        if has_key(r@, n) {
            let i = choose|i: int| 0 <= i < r@.len() && (#[trigger] r@[i]).0@ == n;
            assert(names[i] == n);
        }
        if spec_is_template_command(n) {
            let i = choose|i: int| 0 <= i < names.len() && names[i] == n;
            assert(r@[i].0@ == n);
        }
    }
    r
}

/// The definition of a built-in template command, if `name` is one.
pub fn get_template_command(name: &str) -> (r: Option<CircleCICommand>)
    ensures
        r is Some <==> spec_is_template_command(name@),
{
    proof {
        reveal_strlit("continue_circleci_pipeline");
        reveal_strlit("cigen_shallow_checkout");
        reveal_strlit("cigen_write_submodule_commit_hash");
        reveal_strlit("cigen_calculate_sha256");
    }
    let ghost names = template_command_names();
    if str_eq(name, "continue_circleci_pipeline") {
        assert(names[0] == name@);
        Some(continue_circleci_pipeline_command())
    } else if str_eq(name, "cigen_shallow_checkout") {
        assert(names[1] == name@);
        Some(cigen_shallow_checkout_command())
    } else if str_eq(name, "cigen_write_submodule_commit_hash") {
        assert(names[2] == name@);
        Some(cigen_write_submodule_commit_hash_command())
    } else if str_eq(name, "cigen_calculate_sha256") {
        assert(names[3] == name@);
        Some(cigen_calculate_sha256_command())
    } else {
        assert(!spec_is_template_command(name@)) by {
            if spec_is_template_command(name@) {
                let k = choose|k: int| 0 <= k < names.len() && names[k] == name@;
                assert(0 <= k < 4);
            }
        }
        None
    }
}

} // verus!
