//! The error a tool call answers with.
use vstd::prelude::*;

verus! {

/// Error answered to the model when a tool call cannot be served.
pub enum FunctionCallError {
    RespondToModel(String),
}

impl FunctionCallError {
    /// The message of the error.
    pub closed spec fn message(self) -> Seq<char> {
        match self {
            FunctionCallError::RespondToModel(m) => m@,
        }
    }

    /// The message of the error as a `String`.
    pub fn to_message(&self) -> (s: String)
        ensures
            s@ == self.message(),
    {
        match self {
            FunctionCallError::RespondToModel(m) => m.clone(),
        }
    }
}

/// Builds the error with the given message.
pub fn respond(msg: &str) -> (e: FunctionCallError)
    ensures
        e.message() == msg@,
{
    FunctionCallError::RespondToModel(String::from_str(msg))
}

/// Builds the error whose message is `msg`.
pub fn respond_with(msg: String) -> (e: FunctionCallError)
    ensures
        e.message() == msg@,
{
    FunctionCallError::RespondToModel(msg)
}

} // verus!
