//! Step types of the CircleCI configuration schema.

use vstd::prelude::*;
use super::builtin_steps::spec_is_builtin_step;

verus! {

/// Check if a step name is a built-in CircleCI step: one of the step types that
/// the schema documents under its built-in steps.
pub fn is_builtin_step(step_name: &str) -> (r: bool)
    ensures
        r == spec_is_builtin_step(step_name@),
{
    super::builtin_steps::is_builtin_step(step_name)
}

} // verus!
