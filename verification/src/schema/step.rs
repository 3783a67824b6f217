//! Job steps of `cigen.yml`.

use vstd::prelude::*;
use crate::yaml::YamlValue;

verus! {

/// A job step: a module invocation, a plain run command, or a run command with options.
#[derive(Debug, PartialEq)]
pub enum Step {
    Uses(UsesStep),
    SimpleRun { run: String },
    RunWithOptions { run: RunStepOptions },
}

/// Options of a run step (`run: { name, command, env }`).
#[derive(Debug, Clone, PartialEq)]
pub struct RunStepOptions {
    pub name: Option<String>,
    pub command: String,
    /// Environment variables of the step, in order.
    pub env: Vec<(String, String)>,
}

/// A module invocation with its parameters.
#[derive(Debug, PartialEq)]
pub struct UsesStep {
    /// Module reference with version (e.g. `docker/build@>=1.1`).
    pub uses: String,
    /// Module parameters, in order.
    pub with: Vec<(String, YamlValue)>,
}

/// An artifact to store.
#[derive(Debug, Clone, PartialEq)]
pub struct Artifact {
    /// Glob pattern of the artifact paths.
    pub path: String,
    /// Retention period (e.g. `7d`).
    pub retention: Option<String>,
}

} // verus!
