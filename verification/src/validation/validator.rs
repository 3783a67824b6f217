//! The validator of a configuration directory and its parts.

use vstd::prelude::*;
use vstd::string::*;
use crate::strutil::{find_from, find_str, to_owned_string};

verus! {

broadcast use vstd::string::group_string_axioms;

/// Validates command files.
pub struct CommandValidator;

/// Validates configuration files and fragments.
pub struct ConfigValidator;

/// Validates job files.
pub struct JobValidator;

impl CommandValidator {
    /// A command validator.
    pub fn new() -> (r: Self) {
        CommandValidator
    }
}

/// The path of a schema problem, made more precise where the message names
/// an unexpected property: `('name' was unexpected)` adds `/name` to the path.
pub open spec fn spec_refine_instance_path(message: Seq<char>, path: Seq<char>) -> Seq<char> {
    if find_from(message, "Additional properties are not allowed"@, 0) is Some {
        match find_from(message, "('"@, 0) {
            Some(start) => match find_from(message.subrange(start + 2, message.len() as int), "'"@, 0) {
                Some(end) => {
                    let prop = message.subrange(start + 2, start + 2 + end);
                    if path.len() == 0 { "/"@ + prop } else { path + "/"@ + prop }
                },
                None => path,
            },
            None => path,
        }
    } else {
        path
    }
}

impl ConfigValidator {
    /// A configuration validator.
    pub fn new() -> (r: Self) {
        ConfigValidator
    }

    /// The path of a schema problem with message `message` found at
    /// `instance_path`, pointing at the unexpected property where there is one.
    pub fn refine_instance_path(message: &str, instance_path: &str) -> (r: String)
        ensures
            r@ == spec_refine_instance_path(message@, instance_path@),
    {
        if find_str(message, "Additional properties are not allowed").is_some() {
            match find_str(message, "('") {
                Some(start) => {
                    proof {
                        reveal_strlit("('");
                    }
                    let n = message.unicode_len();
                    let rest = message.substring_char(start + 2, n);
                    match find_str(rest, "'") {
                        Some(end) => {
                            proof {
                                reveal_strlit("'");
                            }
                            assert(rest@.len() == n - (start + 2));
                            let prop = message.substring_char(start + 2, start + 2 + end);
                            if instance_path.unicode_len() == 0 {
                                let mut r = to_owned_string("/");
                                r.append(prop);
                                return r;
                            } else {
                                let mut r = to_owned_string(instance_path);
                                r.append("/");
                                r.append(prop);
                                return r;
                            }
                        },
                        None => {},
                    }
                },
                None => {},
            }
        }
        to_owned_string(instance_path)
    }
}

impl JobValidator {
    /// A job validator.
    pub fn new() -> (r: Self) {
        JobValidator
    }
}

/// Validates a configuration directory: its main configuration, split
/// configuration fragments, workflow configurations, job files and command files.
pub struct Validator {
    pub command_validator: CommandValidator,
    pub config_validator: ConfigValidator,
    pub job_validator: JobValidator,
}

impl Validator {
    /// A validator; creating one always succeeds.
    pub fn new() -> (r: Result<Self, String>)
        ensures
            r is Ok,
    {
        Ok(Validator {
            command_validator: CommandValidator::new(),
            config_validator: ConfigValidator::new(),
            job_validator: JobValidator::new(),
        })
    }
}

} // verus!
