//! The failures that the library reports to its callers.

use vstd::prelude::*;

verus! {

/// Why a call was refused. Every failure is recoverable at the call site; a
/// subscriber that has gone away is never an error for the publisher.
#[derive(Clone, Copy, Debug, PartialEq, Eq, Structural)]
pub enum ChatError {
    /// The ticket lacks the fixed prefix, or holds no separator after it.
    InvalidTicketFormat,
    /// A message was to be sent while no topic had been created or joined.
    NoActiveTopic,
    /// A topic identifier that no ticket can carry: it holds the separator.
    InvalidState,
}

impl ChatError {
    /// The message shown to the user for this failure.
    pub fn message(&self) -> (text: String)
        ensures
            text@ == match *self {
                ChatError::InvalidTicketFormat => "Invalid ticket format"@,
                ChatError::NoActiveTopic => "No active topic hash"@,
                ChatError::InvalidState => "Invalid topic identifier"@,
            },
    {
        match self {
            ChatError::InvalidTicketFormat => "Invalid ticket format".to_owned(),
            ChatError::NoActiveTopic => "No active topic hash".to_owned(),
            ChatError::InvalidState => "Invalid topic identifier".to_owned(),
        }
    }
}

} // verus!
