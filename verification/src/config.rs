//! Errors of the environment-variable configuration loader.
use vstd::prelude::*;

use crate::text::{chars_of, extend_chars, string_of};

verus! {

/// Why the configuration could not be loaded.
#[derive(Debug, Clone, PartialEq, Eq)]
pub enum ConfigError {
    /// A required variable is unset or empty.
    Missing { var: &'static str },
    /// A variable's value cannot be used.
    Invalid { var: &'static str, reason: String },
}

impl ConfigError {
    /// The error's message.
    pub open spec fn message_text(&self) -> Seq<char> {
        match self {
            ConfigError::Missing { var } => "required env var "@ + var@ + " is not set or is empty"@,
            ConfigError::Invalid { var, reason } => "env var "@ + var@ + " has an invalid value: "@ + reason@,
        }
    }

    /// The error's message.
    pub fn message(&self) -> (r: String)
        ensures
            r@ == self.message_text(),
    {
        match self {
            ConfigError::Missing { var } => {
                let mut v = chars_of("required env var ");
                extend_chars(&mut v, &chars_of(var));
                extend_chars(&mut v, &chars_of(" is not set or is empty"));
                string_of(&v)
            },
            ConfigError::Invalid { var, reason } => {
                let mut v = chars_of("env var ");
                extend_chars(&mut v, &chars_of(var));
                extend_chars(&mut v, &chars_of(" has an invalid value: "));
                extend_chars(&mut v, &chars_of(reason.as_str()));
                string_of(&v)
            },
        }
    }
}

} // verus!
