//! The structure of a CircleCI configuration file.

use vstd::prelude::*;
use crate::strutil::to_owned_string;
use crate::yaml::{YamlValue, YamlView, spec_as_str, lemma_entry_views_of, entry_views_of, yaml_view};
use super::builtin_steps::spec_is_builtin_step;

verus! {

broadcast use vstd::string::group_string_axioms;

/// A CircleCI configuration file. The format version is kept as its text (e.g. "2.1").
#[derive(Debug, PartialEq)]
pub struct CircleCIConfig {
    pub version: String,
    pub setup: Option<bool>,
    pub orbs: Option<Vec<(String, String)>>,
    pub executors: Option<Vec<(String, CircleCIExecutor)>>,
    pub commands: Option<Vec<(String, CircleCICommand)>>,
    pub jobs: Vec<(String, CircleCIJob)>,
    pub workflows: Vec<(String, CircleCIWorkflow)>,
    pub parameters: Option<Vec<(String, CircleCIParameter)>>,
}

impl CircleCIConfig {
    /// An empty configuration of format version 2.1.
    pub fn new() -> (r: Self)
        ensures
            r.version@ == "2.1"@,
            r.setup is None && r.orbs is None && r.executors is None && r.commands is None && r.parameters is None,
            r.jobs@.len() == 0 && r.workflows@.len() == 0,
    {
        CircleCIConfig {
            version: to_owned_string("2.1"),
            setup: None,
            orbs: None,
            executors: None,
            commands: None,
            jobs: Vec::new(),
            workflows: Vec::new(),
            parameters: None,
        }
    }
}

impl Default for CircleCIConfig {
    /// An empty configuration of format version 2.1.
    fn default() -> (r: Self)
        ensures
            r.version@ == "2.1"@,
            r.setup is None && r.orbs is None && r.executors is None && r.commands is None && r.parameters is None,
            r.jobs@.len() == 0 && r.workflows@.len() == 0,
    {
        CircleCIConfig::new()
    }
}

/// A reusable executor.
#[derive(Debug, Clone, PartialEq)]
pub struct CircleCIExecutor {
    pub docker: Option<Vec<CircleCIDockerImage>>,
    pub machine: Option<CircleCIMachine>,
    pub resource_class: Option<String>,
    pub working_directory: Option<String>,
    pub environment: Option<Vec<(String, String)>>,
}

/// A docker image of a job or executor.
#[derive(Debug, Clone, PartialEq)]
pub struct CircleCIDockerImage {
    pub image: String,
    pub auth: Option<CircleCIDockerAuth>,
    pub name: Option<String>,
    pub entrypoint: Option<Vec<String>>,
    pub command: Option<Vec<String>>,
    pub user: Option<String>,
    pub environment: Option<Vec<(String, String)>>,
}

/// Registry credentials of a docker image.
#[derive(Debug, Clone, PartialEq)]
pub struct CircleCIDockerAuth {
    pub username: String,
    pub password: String,
}

/// A machine executor.
#[derive(Debug, Clone, PartialEq)]
pub struct CircleCIMachine {
    pub image: String,
    pub docker_layer_caching: Option<bool>,
}

/// A reusable command.
#[derive(Debug, PartialEq)]
pub struct CircleCICommand {
    pub description: Option<String>,
    pub parameters: Option<Vec<(String, CircleCIParameter)>>,
    pub steps: Vec<CircleCIStep>,
}

/// A parameter declaration.
#[derive(Debug, Clone, PartialEq)]
pub enum CircleCIParameter {
    String {
        param_type: String,
        default: Option<String>,
        description: Option<String>,
    },
    Boolean {
        param_type: String,
        default: Option<bool>,
        description: Option<String>,
    },
}

/// A job.
#[derive(Debug, PartialEq)]
pub struct CircleCIJob {
    pub executor: Option<String>,
    pub docker: Option<Vec<CircleCIDockerImage>>,
    pub machine: Option<CircleCIMachine>,
    pub resource_class: Option<String>,
    pub working_directory: Option<String>,
    pub parallelism: Option<u32>,
    pub environment: Option<Vec<(String, String)>>,
    pub parameters: Option<Vec<(String, CircleCIParameter)>>,
    pub steps: Vec<CircleCIStep>,
}

/// A step, kept as written, with the step type read from it.
#[derive(Debug, PartialEq)]
pub struct CircleCIStep {
    /// The step as written.
    pub raw: YamlValue,
    /// The detected step type.
    pub step_type: Option<String>,
}

/// The step type of a step as written: a bare string names its step itself
/// (such as `checkout` or a command); a mapping
/// with a single string key is a step of that type; anything else has none.
pub open spec fn spec_detect_step_type(v: YamlView) -> Option<Seq<char>> {
    match v {
        YamlView::Str(s) => Some(s),
        YamlView::Mapping(e) => if e.len() == 1 { spec_as_str(e[0].0) } else { None },
        _ => None,
    }
}

impl CircleCIStep {
    /// A step holding `raw`, with its detected type.
    pub fn new(raw: YamlValue) -> (r: Self)
        ensures
            r.raw == raw,
            crate::strutil::opt_str_view(r.step_type) == spec_detect_step_type(raw@),
    {
        let step_type = Self::detect_step_type(&raw);
        CircleCIStep { raw, step_type }
    }

    fn detect_step_type(value: &YamlValue) -> (r: Option<String>)
        ensures
            crate::strutil::opt_str_view(r) == spec_detect_step_type(value@),
    {
        match value {
            YamlValue::Str(s) => Some(to_owned_string(s.as_str())),
            YamlValue::Mapping(map) => {
                proof { lemma_entry_views_of(map@); }
                if map.len() == 1 {
                    match map[0].0.as_str() {
                        Some(k) => Some(to_owned_string(k)),
                        None => None,
                    }
                } else {
                    None
                }
            },
            _ => None,
        }
    }

    /// Whether the step's type is a built-in CircleCI step.
    pub fn is_builtin_step(&self) -> (r: bool)
        ensures
            r == match self.step_type {
                Some(t) => spec_is_builtin_step(t@),
                None => false,
            },
    {
        match &self.step_type {
            Some(t) => super::schema::is_builtin_step(t.as_str()),
            None => false,
        }
    }
}

/// A `run` step: a bare command or detailed options.
#[derive(Debug, Clone, PartialEq)]
pub enum CircleCIRunStep {
    Simple { run: String },
    Detailed { run: CircleCIRunDetails },
}

/// Options of a `run` step.
#[derive(Debug, Clone, PartialEq)]
pub struct CircleCIRunDetails {
    pub name: Option<String>,
    pub command: String,
    pub shell: Option<String>,
    pub environment: Option<Vec<(String, String)>>,
    pub background: Option<bool>,
    pub working_directory: Option<String>,
    pub no_output_timeout: Option<String>,
    pub when: Option<String>,
}

/// Options of a `setup_remote_docker` step.
#[derive(Debug, Clone, PartialEq)]
pub struct CircleCISetupRemoteDocker {
    pub docker_layer_caching: Option<bool>,
    pub version: Option<String>,
}

/// Options of a `save_cache` step.
#[derive(Debug, Clone, PartialEq)]
pub struct CircleCISaveCache {
    pub key: String,
    pub paths: Vec<String>,
    pub name: Option<String>,
    pub when: Option<String>,
}

/// Options of a `restore_cache` step.
#[derive(Debug, Clone, PartialEq)]
pub struct CircleCIRestoreCache {
    pub keys: Option<Vec<String>>,
    pub key: Option<String>,
    pub name: Option<String>,
}

/// Options of a `store_artifacts` step.
#[derive(Debug, Clone, PartialEq)]
pub struct CircleCIStoreArtifacts {
    pub path: String,
    pub destination: Option<String>,
}

/// Options of a `store_test_results` step.
#[derive(Debug, Clone, PartialEq)]
pub struct CircleCIStoreTestResults {
    pub path: String,
}

/// Options of a `persist_to_workspace` step.
#[derive(Debug, Clone, PartialEq)]
pub struct CircleCIPersistToWorkspace {
    pub root: String,
    pub paths: Vec<String>,
}

/// Options of an `attach_workspace` step.
#[derive(Debug, Clone, PartialEq)]
pub struct CircleCIAttachWorkspace {
    pub at: String,
}

/// Options of an `add_ssh_keys` step.
#[derive(Debug, Clone, PartialEq)]
pub struct CircleCIAddSSHKeys {
    pub fingerprints: Option<Vec<String>>,
}

/// A `when` step.
#[derive(Debug, PartialEq)]
pub struct CircleCIWhenStep {
    pub condition: String,
    pub steps: Vec<CircleCIStep>,
}

/// An `unless` step.
#[derive(Debug, PartialEq)]
pub struct CircleCIUnlessStep {
    pub condition: String,
    pub steps: Vec<CircleCIStep>,
}

/// Contexts of a workflow job.
#[derive(Debug, Clone, PartialEq)]
pub enum CircleCIContext {
    Single(String),
    Multiple(Vec<String>),
}

/// Branch and tag filters of a workflow job.
#[derive(Debug, Clone, PartialEq)]
pub struct CircleCIFilters {
    pub branches: Option<CircleCIBranchFilter>,
    pub tags: Option<CircleCIBranchFilter>,
}

/// Names to match or to ignore.
#[derive(Debug, Clone, PartialEq)]
pub struct CircleCIBranchFilter {
    pub only: Option<Vec<String>>,
    pub ignore: Option<Vec<String>>,
}

/// Options of a job inside a workflow.
#[derive(Debug, PartialEq)]
pub struct CircleCIWorkflowJobDetails {
    pub requires: Option<Vec<String>>,
    pub context: Option<CircleCIContext>,
    pub filters: Option<CircleCIFilters>,
    pub name: Option<String>,
    pub job_type: Option<String>,
    pub pre_steps: Option<Vec<CircleCIStep>>,
    pub post_steps: Option<Vec<CircleCIStep>>,
}

/// A job inside a workflow: its name alone, or its name with options.
#[derive(Debug, PartialEq)]
pub enum CircleCIWorkflowJob {
    Simple(String),
    Detailed { job: Vec<(String, CircleCIWorkflowJobDetails)> },
}

/// A workflow.
#[derive(Debug, PartialEq)]
pub struct CircleCIWorkflow {
    /// The condition under which the workflow runs, as written.
    pub when: Option<YamlValue>,
    /// The condition under which the workflow does not run, as written.
    pub unless: Option<YamlValue>,
    pub jobs: Vec<CircleCIWorkflowJob>,
}

} // verus!
