//! Verified core of a provider-agnostic CI configuration generator.
//!
//! The library holds the configuration model of `cigen.yml`, the YAML value
//! model that steps are written in, and the decisions that turn the model
//! into CircleCI and GitHub Actions structures, together with the
//! reference checks that validation performs.

pub mod strutil;
pub mod yaml;
pub mod schema;
pub mod models;
pub mod providers;
pub mod validation;
pub mod templating;
