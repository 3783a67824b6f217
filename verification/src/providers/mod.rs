//! CI providers: each turns the model into its own configuration files.

pub mod circleci;
pub mod github_actions;

use vstd::prelude::*;
use vstd::string::*;
use crate::strutil::{str_eq, to_owned_string};
use circleci::CircleCIProvider;
use github_actions::GitHubActionsProvider;

verus! {

broadcast use vstd::string::group_string_axioms;

/// What every provider tells about itself.
pub trait Provider {
    /// Name of the provider (e.g. "circleci", "github-actions").
    fn name(&self) -> &'static str;

    /// Default output directory for this provider.
    fn default_output_path(&self) -> &'static str;
}

/// A provider, chosen by name.
pub enum AnyProvider {
    CircleCI(CircleCIProvider),
    GitHubActions(GitHubActionsProvider),
}

/// The provider named `name`: `circleci` or `github-actions`.
pub fn get_provider(name: &str) -> (r: Result<AnyProvider, String>)
    ensures
        name@ == "circleci"@ ==> r matches Ok(AnyProvider::CircleCI(_)),
        name@ == "github-actions"@ ==> r matches Ok(AnyProvider::GitHubActions(_)),
        name@ != "circleci"@ && name@ != "github-actions"@ ==> (r matches Err(m) && m@ == "Unknown provider: "@ + name@),
{
    proof {
        reveal_strlit("circleci");
        reveal_strlit("github-actions");
        assert("circleci"@.len() == 8);
        assert("github-actions"@.len() == 14);
        assert("circleci"@ != "github-actions"@);
    }
    if str_eq(name, "circleci") {
        Ok(AnyProvider::CircleCI(CircleCIProvider::new()))
    } else if str_eq(name, "github-actions") {
        Ok(AnyProvider::GitHubActions(GitHubActionsProvider::new()))
    } else {
        let mut m = to_owned_string("Unknown provider: ");
        m.append(name);
        Err(m)
    }
}

} // verus!
