//! The ways in which an invocation fails, and what follows from each.

use vstd::prelude::*;

verus! {

/// The service answered with a status other than 200. The body is kept as it
/// came.
#[derive(Clone, Debug, PartialEq, Eq)]
pub struct ServiceError {
    pub status: u16,
    pub body: String,
}

/// A failure of one invocation.
#[derive(Clone, Debug, PartialEq, Eq)]
pub enum AssistError {
    /// No credential is configured.
    Configuration,
    /// The service answered with a status other than 200.
    Service(ServiceError),
    /// The connection failed while the request was sent or the body was read.
    Transport(String),
    /// One data frame of the stream does not decode.
    FrameDecode(String),
    /// The request could not be encoded.
    Serialization(String),
}

/// What follows from a failure.
#[derive(Clone, Copy, Debug, PartialEq, Eq, Structural)]
pub enum Recovery {
    /// The command does not run, and no failure is shown to the user.
    Decline,
    /// The failure is logged, the frame is dropped and the stream goes on.
    SkipFrame,
    /// The failure is reported once and the command ends. Nothing is retried.
    Abort,
}

impl AssistError {
    /// The recovery that this failure calls for.
    pub open spec fn spec_recovery(self) -> Recovery {
        match self {
            AssistError::Configuration => Recovery::Decline,
            AssistError::FrameDecode(_) => Recovery::SkipFrame,
            AssistError::Service(_) => Recovery::Abort,
            AssistError::Transport(_) => Recovery::Abort,
            AssistError::Serialization(_) => Recovery::Abort,
        }
    }

    /// A missing credential declines the command in silence; a frame that does
    /// not decode is skipped; every other failure ends the command.
    pub fn recovery(&self) -> (recovery: Recovery)
        ensures
            recovery == self.spec_recovery(),
    {
        match self {
            AssistError::Configuration => Recovery::Decline,
            AssistError::FrameDecode(_) => Recovery::SkipFrame,
            AssistError::Service(_) => Recovery::Abort,
            AssistError::Transport(_) => Recovery::Abort,
            AssistError::Serialization(_) => Recovery::Abort,
        }
    }
}

/// The credential, if one was found. Without one the command declines.
pub fn require_credential(found: Option<String>) -> (credential: Result<String, AssistError>)
    ensures
        credential == (match found {
            Some(key) => Ok::<String, AssistError>(key),
            None => Err::<String, AssistError>(AssistError::Configuration),
        }),
{
    match found {
        Some(key) => Ok(key),
        None => Err(AssistError::Configuration),
    }
}

} // verus!
