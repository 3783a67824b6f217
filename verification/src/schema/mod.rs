//! The `cigen.yml` configuration model and its validation.

pub mod command;
pub mod config;
pub mod job;
pub mod step;
pub mod workflow;
