//! The reasons an invitation can be refused.
//!
//! A refused invitation is an expected, user-facing outcome of the worker
//! creation protocol, never a fault of the dispatcher: the reason is rendered
//! to text and sent back to the inviting user.

use vstd::prelude::*;
use vstd::string::StringExecFns;

verus! {

/// Why the master refused to create a worker for an invitation.
#[derive(Debug, PartialEq, Eq)]
pub enum BotCreationError {
    /// The inviting user could not be located in the channel tree.
    UnfoundUser,
    /// The invitation targeted the master's own channel; the payload is the
    /// master's display name.
    MasterChannel(String),
    /// The targeted channel already hosts an active worker; the payload is
    /// that worker's display name.
    MultipleBots(String),
    /// The pool of display names is exhausted.
    OutOfNames,
    /// The pool of identities is exhausted.
    OutOfIdentities,
}

impl BotCreationError {
    /// The denial text sent back to the inviting user, as a sequence of
    /// characters.
    pub open spec fn message_spec(self) -> Seq<char> {
        match self {
            BotCreationError::UnfoundUser => "I can't find you in the channel list, either I am not subscribed to your channel or this is a bug."@,
            BotCreationError::MasterChannel(name) => "Joining the channel of \""@ + name@
                + "\" is not allowed"@,
            BotCreationError::MultipleBots(name) => "\""@ + name@
                + "\" is already in this channel. Multiple bots in one channel are not allowed."@,
            BotCreationError::OutOfNames => "Out of names. Too many bots are already connected!"@,
            BotCreationError::OutOfIdentities => "Out of identities. Too many bots are already connected!"@,
        }
    }

    /// Renders the denial reason as human-readable text.
    pub fn message(&self) -> (r: String)
        ensures
            r@ == self.message_spec(),
    {
        match self {
            BotCreationError::UnfoundUser => String::from_str(
                "I can't find you in the channel list, either I am not subscribed to your channel or this is a bug.",
            ),
            BotCreationError::MasterChannel(name) => {
                let mut s = String::from_str("Joining the channel of \"");
                s.append(name.as_str());
                s.append("\" is not allowed");
                s
            },
            BotCreationError::MultipleBots(name) => {
                let mut s = String::from_str("\"");
                s.append(name.as_str());
                s.append("\" is already in this channel. Multiple bots in one channel are not allowed.");
                s
            },
            BotCreationError::OutOfNames => String::from_str(
                "Out of names. Too many bots are already connected!",
            ),
            BotCreationError::OutOfIdentities => String::from_str(
                "Out of identities. Too many bots are already connected!",
            ),
        }
    }
}

} // verus!
