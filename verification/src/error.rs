//! Errors reported while a schedule is being assembled.

use vstd::prelude::*;

verus! {

/// Why a builder could not produce a schedule.
#[derive(Debug, Clone, Copy, PartialEq, Eq, Structural)]
pub enum BuildError {
    /// No cron rule was given to the builder.
    MissingSchedule,
    /// The builder was never told whether the job is active.
    MissingActivation,
}

impl BuildError {
    /// The human-readable description of the error.
    pub fn message(&self) -> (text: String)
        ensures
            text@ == self.message_spec(),
    {
        match self {
            BuildError::MissingSchedule => "a schedule was not specified".to_string(),
            BuildError::MissingActivation => {
                "the schedule was not specified as active or not".to_string()
            },
        }
    }

    /// The text that `message` returns.
    pub open spec fn message_spec(&self) -> Seq<char> {
        match self {
            BuildError::MissingSchedule => "a schedule was not specified"@,
            BuildError::MissingActivation => "the schedule was not specified as active or not"@,
        }
    }
}

/// A text that is not a cron expression, with the parser's explanation.
#[derive(Debug)]
pub struct ParseError {
    /// The text that was rejected.
    pub expression: String,
    /// What the parser said about it.
    pub reason: String,
}

} // verus!
