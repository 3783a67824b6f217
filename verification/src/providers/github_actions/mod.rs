//! GitHub Actions provider.

pub mod cache;
pub mod generator;
pub mod job_skip;
pub mod schema;

use vstd::prelude::*;
use crate::providers::Provider;
use generator::GitHubActionsGenerator;

verus! {

/// The GitHub Actions provider.
pub struct GitHubActionsProvider {
    pub generator: GitHubActionsGenerator,
}

impl GitHubActionsProvider {
    /// A provider.
    pub fn new() -> (r: Self) {
        GitHubActionsProvider { generator: GitHubActionsGenerator::new() }
    }
}

impl Provider for GitHubActionsProvider {
    fn name(&self) -> (r: &'static str)
        ensures
            r@ == "github-actions"@,
    {
        "github-actions"
    }

    fn default_output_path(&self) -> (r: &'static str)
        ensures
            r@ == ".github/workflows"@,
    {
        ".github/workflows"
    }
}

} // verus!
