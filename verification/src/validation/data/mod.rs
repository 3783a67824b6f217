//! Data-level validation: references between parts of a configuration, with
//! the place in the source text that a problem is reported at.

pub mod cache_validator;
pub mod error;
pub mod reference_validator;
pub mod requires_validator;
pub mod service_validator;
pub mod source_files_validator;
pub mod span_finder;
pub mod spanned_yaml;
pub mod validator;
