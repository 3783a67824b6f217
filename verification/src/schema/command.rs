//! Reusable command definitions.

use vstd::prelude::*;
use crate::yaml::YamlValue;
use super::step::Step;

verus! {

/// A reusable command (CircleCI style).
#[derive(Debug, PartialEq)]
pub struct CommandDefinition {
    pub description: Option<String>,
    /// Parameters accepted by the command, in order.
    pub parameters: Vec<(String, CommandParameter)>,
    pub steps: Vec<Step>,
    /// Any other keys of the definition.
    pub extra: Vec<(String, YamlValue)>,
}

/// A parameter of a command.
#[derive(Debug, PartialEq)]
pub struct CommandParameter {
    /// Declared type (string, boolean, integer).
    pub parameter_type: Option<String>,
    pub description: Option<String>,
    pub default: Option<YamlValue>,
    /// Any other keys of the parameter.
    pub extra: Vec<(YamlValue, YamlValue)>,
}

} // verus!
