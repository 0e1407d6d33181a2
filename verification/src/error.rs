//! The launcher's error type.
use vstd::prelude::*;

verus! {

/// An error carried back to the front end as a message.
#[derive(Debug, PartialEq, Eq)]
pub struct XMCLError(pub String);

/// Result type of the launcher's operations.
pub type XMCLResult<T> = Result<T, XMCLError>;

impl XMCLError {
    /// An error with the given message.
    pub fn from_message(message: String) -> (e: XMCLError)
        ensures
            e.0@ == message@,
    {
        XMCLError(message)
    }
}

} // verus!
