//! The step types that CircleCI provides itself.

use vstd::prelude::*;
use crate::strutil::str_eq;

verus! {

/// The built-in CircleCI step types, as the CircleCI configuration reference lists them.
pub open spec fn builtin_step_names() -> Seq<Seq<char>> {
    seq![
        "checkout"@, "run"@,
        "save_cache"@, "restore_cache"@,
        "store_artifacts"@, "store_test_results"@,
        "persist_to_workspace"@, "attach_workspace"@,
        "add_ssh_keys"@, "setup_remote_docker"@,
        "when"@, "unless"@,
        "deploy"@,
    ]
}

/// Whether `name` is a built-in CircleCI step type.
pub open spec fn spec_is_builtin_step(name: Seq<char>) -> bool {
    builtin_step_names().contains(name)
}

/// Check if a step name is a built-in CircleCI step.
pub fn is_builtin_step(step_name: &str) -> (r: bool)
    ensures
        r == spec_is_builtin_step(step_name@),
{
    let names: [&str; 13] = [
        "checkout", "run",
        "save_cache", "restore_cache",
        "store_artifacts", "store_test_results",
        "persist_to_workspace", "attach_workspace",
        "add_ssh_keys", "setup_remote_docker",
        "when", "unless",
        "deploy",
    ];
    let ghost expected = builtin_step_names();
    assert(names@.map_values(|s: &str| s@) =~= expected);
    let mut i: usize = 0;
    while i < 13
        invariant
            i <= 13,
            names@.map_values(|s: &str| s@) == expected,
            expected == builtin_step_names(),
            forall|j: int| 0 <= j < i ==> expected[j] != step_name@,
        decreases 13 - i,
    {
        assert(names@.map_values(|s: &str| s@)[i as int] == names@[i as int]@);
        if str_eq(names[i], step_name) {
            assert(expected[i as int] == step_name@);
            return true;
        }
        i = i + 1;
    }
    assert(!expected.contains(step_name@)) by {
        if expected.contains(step_name@) {
            let k = choose|k: int| 0 <= k < expected.len() && expected[k] == step_name@;
            assert(expected[k] != step_name@);
        }
    }
    false
}

} // verus!
