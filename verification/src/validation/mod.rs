//! Validation of configurations: step references and cross-references.

pub mod data;
pub mod error_reporter;
pub mod plan;
pub mod schemas;
pub mod steps;
pub mod validator;
