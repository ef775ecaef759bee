//! The hub's error taxonomy. Every failure is per-request; none is fatal.

use vstd::prelude::*;

verus! {

/// Why an operation was refused.
#[derive(Clone, Copy, Debug, PartialEq, Eq, Structural)]
pub enum HubError {
    /// The input had a bad shape (an empty name, an unparsable setting).
    ValidationError,
    /// No channel with the given id is registered.
    NotFound,
    /// The operation needs an `Active` channel and the channel is not.
    ChannelNotActive,
    /// A durable-store transaction failed; the operation was aborted.
    PersistenceError,
}

impl HubError {
    /// A short description, for callers that report errors as text.
    pub fn describe(&self) -> (r: &'static str)
        ensures
            self is ValidationError ==> r@ == "invalid input"@,
            self is NotFound ==> r@ == "channel not found"@,
            self is ChannelNotActive ==> r@ == "channel is not active"@,
            self is PersistenceError ==> r@ == "persistence failure"@,
    {
        match self {
            HubError::ValidationError => "invalid input",
            HubError::NotFound => "channel not found",
            HubError::ChannelNotActive => "channel is not active",
            HubError::PersistenceError => "persistence failure",
        }
    }
}

} // verus!
