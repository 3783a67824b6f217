//! CircleCI provider.

pub mod assemble;
pub mod base_hash;
pub mod builtin_steps;
pub mod command_scan;
pub mod config;
pub mod convert;
pub mod docker_build;
pub mod docker_images;
pub mod generator;
pub mod schema;
pub mod setup;
pub mod template_commands;

use vstd::prelude::*;
use crate::providers::Provider;
use generator::CircleCIGenerator;

verus! {

/// The CircleCI provider.
pub struct CircleCIProvider {
    generator: CircleCIGenerator,
}

impl CircleCIProvider {
    /// The generator has computed nothing yet.
    pub closed spec fn is_fresh(&self) -> bool {
        self.generator.is_fresh()
    }

    /// A provider with a fresh generator.
    pub fn new() -> (r: Self)
        ensures
            r.is_fresh(),
    {
        CircleCIProvider { generator: CircleCIGenerator::new() }
    }
}

impl Provider for CircleCIProvider {
    fn name(&self) -> (r: &'static str)
        ensures
            r@ == "circleci"@,
    {
        "circleci"
    }

    fn default_output_path(&self) -> (r: &'static str)
        ensures
            r@ == ".circleci"@,
    {
        ".circleci"
    }
}

} // verus!
