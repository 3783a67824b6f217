//! The structure of a GitHub Actions workflow file. JSON values are held in the
//! YAML value model.

use vstd::prelude::*;
use crate::yaml::YamlValue;

verus! {

/// A workflow.
#[derive(Debug, PartialEq)]
pub struct Workflow {
    pub name: String,
    pub on: Option<WorkflowTrigger>,
    pub permissions: Option<Permissions>,
    pub jobs: Vec<(String, Job)>,
    pub env: Option<Vec<(String, String)>>,
    pub concurrency: Option<Concurrency>,
}

/// The events that start a workflow.
#[derive(Debug, Clone, PartialEq)]
pub enum WorkflowTrigger {
    Simple(Vec<String>),
    Detailed(Vec<(String, TriggerConfig)>),
}

/// Filters of one event.
#[derive(Debug, Clone, PartialEq)]
pub struct TriggerConfig {
    pub branches: Option<Vec<String>>,
    pub tags: Option<Vec<String>>,
    pub paths: Option<Vec<String>>,
    pub types: Option<Vec<String>>,
}

/// Concurrency group of a workflow.
#[derive(Debug, Clone, PartialEq)]
pub struct Concurrency {
    pub group: String,
    pub cancel_in_progress: Option<bool>,
}

/// A job.
#[derive(Debug, PartialEq)]
pub struct Job {
    pub name: Option<String>,
    pub runs_on: Option<RunsOn>,
    pub needs: Option<Vec<String>>,
    pub condition: Option<String>,
    pub strategy: Option<Strategy>,
    pub steps: Option<Vec<Step>>,
    pub env: Option<Vec<(String, String)>>,
    pub services: Option<Vec<(String, Service)>>,
    pub container: Option<Container>,
    pub timeout_minutes: Option<u32>,
    pub outputs: Option<Vec<(String, String)>>,
    pub permissions: Option<Permissions>,
    pub environment: Option<Environment>,
}

/// The runner of a job.
#[derive(Debug, Clone, PartialEq)]
pub enum RunsOn {
    Single(String),
    Multiple(Vec<String>),
    Detailed(RunsOnDetailed),
}

/// A runner group and labels.
#[derive(Debug, Clone, PartialEq)]
pub struct RunsOnDetailed {
    pub group: Option<String>,
    pub labels: Option<Vec<String>>,
}

/// A matrix strategy.
#[derive(Debug, PartialEq)]
pub struct Strategy {
    pub matrix: Vec<(String, Vec<YamlValue>)>,
    pub fail_fast: Option<bool>,
    pub max_parallel: Option<u32>,
}

/// A service container.
#[derive(Debug, Clone, PartialEq)]
pub struct Service {
    pub image: String,
    pub env: Option<Vec<(String, String)>>,
    pub ports: Option<Vec<String>>,
    pub options: Option<String>,
    pub credentials: Option<ContainerCredentials>,
}

/// A job container.
#[derive(Debug, Clone, PartialEq)]
pub struct Container {
    pub image: String,
    pub env: Option<Vec<(String, String)>>,
    pub ports: Option<Vec<String>>,
    pub options: Option<String>,
    pub credentials: Option<ContainerCredentials>,
}

/// Registry credentials.
#[derive(Debug, Clone, PartialEq)]
pub struct ContainerCredentials {
    pub username: String,
    pub password: String,
}

/// A step.
#[derive(Debug, PartialEq)]
pub struct Step {
    pub id: Option<String>,
    pub name: Option<String>,
    pub uses: Option<String>,
    pub run: Option<String>,
    pub with: Option<Vec<(String, YamlValue)>>,
    pub env: Option<Vec<(String, String)>>,
    pub condition: Option<String>,
    pub working_directory: Option<String>,
    pub shell: Option<String>,
    pub continue_on_error: Option<bool>,
    pub timeout_minutes: Option<u32>,
}

impl Step {
    /// A step with nothing set.
    pub fn empty() -> (r: Self)
        ensures
            r.id is None && r.name is None && r.uses is None && r.run is None && r.with is None,
            r.env is None && r.condition is None && r.working_directory is None && r.shell is None,
            r.continue_on_error is None && r.timeout_minutes is None,
    {
        Step {
            id: None,
            name: None,
            uses: None,
            run: None,
            with: None,
            env: None,
            condition: None,
            working_directory: None,
            shell: None,
            continue_on_error: None,
            timeout_minutes: None,
        }
    }
}

/// Token permissions.
#[derive(Debug, Clone, PartialEq)]
pub enum Permissions {
    Simple(PermissionLevel),
    Detailed(Vec<(String, PermissionLevel)>),
}

/// A permission level.
#[derive(Debug, Clone, Copy, PartialEq, Eq, Structural)]
pub enum PermissionLevel {
    Read,
    Write,
    NoAccess,
}

/// A deployment environment.
#[derive(Debug, Clone, PartialEq)]
pub enum Environment {
    Simple(String),
    Detailed { name: String, url: Option<String> },
}

} // verus!
