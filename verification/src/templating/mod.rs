//! Template support: variables, error reports, and the text-level steps
//! around rendering.

pub mod engine;
pub mod error;
pub mod functions;
pub mod variables;
