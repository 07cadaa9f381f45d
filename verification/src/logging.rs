//! The log of the process.
use vstd::prelude::*;

verus! {

#[derive(Clone, Copy, Debug, PartialEq, Eq, Structural)]
pub enum LoggingError {
    AlreadyInitialized,
}

impl LoggingError {
    pub open spec fn text(self) -> Seq<char> {
        match self {
            LoggingError::AlreadyInitialized =>
                "the global logging subscriber is already initialized"@,
        }
    }

    /// What the error says.
    pub fn message(&self) -> (result: &'static str)
        ensures
            result@ == self.text(),
    {
        match self {
            LoggingError::AlreadyInitialized =>
                "the global logging subscriber is already initialized",
        }
    }
}

} // verus!
