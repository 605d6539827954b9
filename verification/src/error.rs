//! The one error type of the crate.
use vstd::prelude::*;
use crate::scrub::{is_scrubbed, scrub, scrubbed};
use crate::text::{integer, integer_text};

verus! {

/// Everything that can go wrong, by kind.
#[derive(Debug, Clone, PartialEq, Eq)]
pub enum WorkspaceError {
    /// An input was malformed: a URL, a provisioning mode, an encoded body.
    Validation(String),
    /// A workspace id or a file that does not exist.
    NotFound(String),
    /// The backend could not do its work; the message carries what it captured.
    Backend(String),
    /// A command ran and exited with a code other than zero.
    CommandFailure { exit_code: i32, output: String },
    /// The Git-hosting service refused or failed.
    Integration(String),
    /// An operation reached a controller in a state that forbids it.
    InvariantViolation(String),
}

/// How a failed command is reported: its exit code, then what it printed.
pub open spec fn command_failure_text(exit_code: int, output: Seq<char>) -> Seq<char> {
    "Command failed with exit code "@ + integer_text(exit_code) + ": "@ + output
}

impl WorkspaceError {
    /// The error in words.
    pub open spec fn message_text(self) -> Seq<char> {
        match self {
            WorkspaceError::Validation(m) => m@,
            WorkspaceError::NotFound(m) => m@,
            WorkspaceError::Backend(m) => m@,
            WorkspaceError::CommandFailure { exit_code, output } => command_failure_text(
                exit_code as int,
                output@,
            ),
            WorkspaceError::Integration(m) => m@,
            WorkspaceError::InvariantViolation(m) => m@,
        }
    }

    /// The text that an error carries: its message, or for a failed command
    /// what the command printed.
    pub open spec fn carried_text(self) -> Seq<char> {
        match self {
            WorkspaceError::Validation(m) => m@,
            WorkspaceError::NotFound(m) => m@,
            WorkspaceError::Backend(m) => m@,
            WorkspaceError::CommandFailure { exit_code, output } => output@,
            WorkspaceError::Integration(m) => m@,
            WorkspaceError::InvariantViolation(m) => m@,
        }
    }

    /// Both errors are of one kind, and for failed commands of one exit code.
    pub open spec fn same_kind(self, other: WorkspaceError) -> bool {
        match (self, other) {
            (WorkspaceError::Validation(_), WorkspaceError::Validation(_)) => true,
            (WorkspaceError::NotFound(_), WorkspaceError::NotFound(_)) => true,
            (WorkspaceError::Backend(_), WorkspaceError::Backend(_)) => true,
            (
                WorkspaceError::CommandFailure { exit_code: a, output: _ },
                WorkspaceError::CommandFailure { exit_code: b, output: _ },
            ) => a == b,
            (WorkspaceError::Integration(_), WorkspaceError::Integration(_)) => true,
            (WorkspaceError::InvariantViolation(_), WorkspaceError::InvariantViolation(_)) => true,
            _ => false,
        }
    }

    /// Masks every credential in the text that the error carries, before the
    /// error leaves the process. Kind and exit code stay.
    pub fn scrubbed(self) -> (clean: WorkspaceError)
        ensures
            clean.same_kind(self),
            clean.carried_text() == scrubbed(self.carried_text()),
            is_scrubbed(clean.carried_text()),
    {
        match self {
            WorkspaceError::Validation(m) => WorkspaceError::Validation(scrub(m.as_str())),
            WorkspaceError::NotFound(m) => WorkspaceError::NotFound(scrub(m.as_str())),
            WorkspaceError::Backend(m) => WorkspaceError::Backend(scrub(m.as_str())),
            WorkspaceError::CommandFailure { exit_code, output } => WorkspaceError::CommandFailure {
                exit_code,
                output: scrub(output.as_str()),
            },
            WorkspaceError::Integration(m) => WorkspaceError::Integration(scrub(m.as_str())),
            WorkspaceError::InvariantViolation(m) => WorkspaceError::InvariantViolation(
                scrub(m.as_str()),
            ),
        }
    }

    /// Renders the error for a log line or a response.
    pub fn message(&self) -> (text: String)
        ensures
            text@ == self.message_text(),
    {
        match self {
            WorkspaceError::Validation(m) => m.clone(),
            WorkspaceError::NotFound(m) => m.clone(),
            WorkspaceError::Backend(m) => m.clone(),
            WorkspaceError::CommandFailure { exit_code, output } => {
                let mut text = String::from_str("Command failed with exit code ");
                text.append(integer(*exit_code as i64).as_str());
                text.append(": ");
                text.append(output.as_str());
                text
            },
            WorkspaceError::Integration(m) => m.clone(),
            WorkspaceError::InvariantViolation(m) => m.clone(),
        }
    }
}

} // verus!
