//! Workflow metadata: stages, run conditions and output settings.

use vstd::prelude::*;
use crate::strutil::to_owned_string;
use crate::yaml::{YamlValue, YamlView};

verus! {

/// A named stage of a workflow and the stages it needs.
#[derive(Debug, Clone, PartialEq)]
pub struct StageDefinition {
    pub name: String,
    pub needs: Vec<String>,
}

/// Workflow configuration (triggers, output, stages) keyed by workflow id in the config.
#[derive(Debug, PartialEq)]
pub struct WorkflowConfig {
    pub dynamic: bool,
    pub output_path: Option<String>,
    pub output_filename: Option<String>,
    pub setup: bool,
    pub checkout: Option<YamlValue>,
    pub run_when: Vec<WorkflowCondition>,
    pub stages: Vec<StageDefinition>,
    pub stage_prefix: bool,
    pub default_stage_prefix: bool,
    pub stage_prefix_separator: String,
    /// Any other keys of the workflow document.
    pub extra: Vec<(String, YamlValue)>,
    /// The workflow document as written.
    pub raw: YamlValue,
}

/// The default separator between a stage prefix and a job name: `_`.
pub fn default_stage_prefix_separator() -> (r: String)
    ensures
        r@ == seq!['_'],
{
    let r = to_owned_string("_");
    proof {
        reveal_strlit("_");
    }
    r
}

impl WorkflowConfig {
    /// A workflow configuration with every option at its default: not dynamic, no
    /// setup, no conditions or stages, separator `_` and an empty mapping as raw value.
    pub fn default() -> (r: Self)
        ensures
            !r.dynamic,
            r.output_path is None,
            r.output_filename is None,
            !r.setup,
            r.checkout is None,
            r.run_when@.len() == 0,
            r.stages@.len() == 0,
            !r.stage_prefix,
            !r.default_stage_prefix,
            r.stage_prefix_separator@ == seq!['_'],
            r.extra@.len() == 0,
            r.raw matches YamlValue::Mapping(m) && m@.len() == 0,
    {
        WorkflowConfig {
            dynamic: false,
            output_path: None,
            output_filename: None,
            setup: false,
            checkout: None,
            run_when: Vec::new(),
            stages: Vec::new(),
            stage_prefix: false,
            default_stage_prefix: false,
            stage_prefix_separator: default_stage_prefix_separator(),
            extra: Vec::new(),
            raw: YamlValue::Mapping(Vec::new()),
        }
    }
}

/// A condition under which a workflow runs.
#[derive(Debug, PartialEq)]
pub struct WorkflowCondition {
    pub provider: Option<String>,
    pub parameter: Option<String>,
    pub variable: Option<String>,
    pub env: Option<String>,
    pub expression: Option<String>,
    pub equals: Option<YamlValue>,
    pub extra: Vec<(String, YamlValue)>,
}

/// The kind of a workflow condition.
#[derive(Debug, Clone, Copy, PartialEq, Eq, Structural)]
pub enum WorkflowConditionKind {
    Parameter,
    Variable,
    Env,
    Expression,
}

/// A workflow condition that names none of parameter, variable, env or expression.
#[derive(Debug, Clone, Copy, PartialEq, Eq, Structural)]
pub struct MissingConditionKind;

impl WorkflowCondition {
    /// The kind of the condition: the first of parameter, variable, env, expression that is set.
    pub open spec fn spec_kind(&self) -> Option<WorkflowConditionKind> {
        if self.parameter is Some {
            Some(WorkflowConditionKind::Parameter)
        } else if self.variable is Some {
            Some(WorkflowConditionKind::Variable)
        } else if self.env is Some {
            Some(WorkflowConditionKind::Env)
        } else if self.expression is Some {
            Some(WorkflowConditionKind::Expression)
        } else {
            None
        }
    }

    /// The key the condition tests: the first of parameter, variable, env that is set.
    pub open spec fn spec_key(&self) -> Option<Seq<char>> {
        if self.parameter is Some {
            Some(self.parameter->0@)
        } else if self.variable is Some {
            Some(self.variable->0@)
        } else if self.env is Some {
            Some(self.env->0@)
        } else {
            None
        }
    }

    #[verifier::when_used_as_spec(spec_kind)]
    pub fn kind(&self) -> (r: Option<WorkflowConditionKind>)
        ensures
            r == self.spec_kind(),
    {
        if self.parameter.is_some() {
            Some(WorkflowConditionKind::Parameter)
        } else if self.variable.is_some() {
            Some(WorkflowConditionKind::Variable)
        } else if self.env.is_some() {
            Some(WorkflowConditionKind::Env)
        } else if self.expression.is_some() {
            Some(WorkflowConditionKind::Expression)
        } else {
            None
        }
    }

    pub fn key(&self) -> (r: Option<&str>)
        ensures
            match r {
                Some(k) => self.spec_key() == Some(k@),
                None => self.spec_key() is None,
            },
    {
        match &self.parameter {
            Some(p) => Some(p.as_str()),
            None => match &self.variable {
                Some(v) => Some(v.as_str()),
                None => match &self.env {
                    Some(e) => Some(e.as_str()),
                    None => None,
                },
            },
        }
    }

    /// The value the condition compares against; `true` when none is given.
    pub fn equals_value(&self) -> (r: YamlValue)
        ensures
            match self.equals {
                Some(v) => r@ == v@,
                None => r@ == YamlView::Bool(true),
            },
    {
        match &self.equals {
            Some(v) => v.deep_copy(),
            None => YamlValue::Bool(true),
        }
    }

    /// A condition is valid when it has a kind.
    pub fn validate(&self) -> (r: Result<(), MissingConditionKind>)
        ensures
            r is Ok <==> self.spec_kind() is Some,
    {
        if self.kind().is_none() {
            return Err(MissingConditionKind);
        }
        Ok(())
    }
}

} // verus!
