//! The ways in which a read request can fail.
use vstd::prelude::*;
use vstd::string::StringExecFns;

verus! {

/// Why a request failed. Every failure ends the request that met it: there
/// is no partial result and nothing to retry.
#[derive(Debug, PartialEq, Eq)]
pub enum ReadError {
    /// The process identifier does not fit the system's identifier type, or
    /// the system granted no handle for it. Holds the cause in words.
    ProcessNotFound(String),
    /// The system refused or cut short the copy. Holds the cause in words.
    MemoryAccess(String),
    /// The bytes at hand do not end on a window boundary.
    IncompleteWord,
}

/// What a failure message starts with, before the cause.
pub open spec fn message_prefix() -> Seq<char> {
    "cannot read from given memory: "@
}

impl ReadError {
    /// The cause in words; empty for an incomplete word.
    pub open spec fn cause_text(&self) -> Seq<char> {
        match self {
            ReadError::ProcessNotFound(cause) => cause@,
            ReadError::MemoryAccess(cause) => cause@,
            ReadError::IncompleteWord => Seq::<char>::empty(),
        }
    }

    /// The cause of the failure in words.
    pub fn cause(&self) -> (text: String)
        ensures
            text@ == self.cause_text(),
    {
        match self {
            ReadError::ProcessNotFound(cause) => cause.clone(),
            ReadError::MemoryAccess(cause) => cause.clone(),
            ReadError::IncompleteWord => String::new(),
        }
    }

    /// The message that a caller is shown: the fixed prefix, then the cause.
    pub fn failure_message(&self) -> (message: String)
        ensures
            message@ == message_prefix() + self.cause_text(),
    {
        let prefix = String::from_str("cannot read from given memory: ");
        let cause = self.cause();
        prefix.concat(cause.as_str())
    }
}

} // verus!
