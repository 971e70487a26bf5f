//! The failures the proxy reports, in a form the front ends turn into
//! `std::io::Error`s.

use vstd::prelude::*;

verus! {

/// The `std::io::ErrorKind` a failure is reported under.
#[derive(Debug, Clone, Copy, PartialEq, Eq, Structural)]
pub enum FailureKind {
    InvalidData,
    InvalidInput,
    UnexpectedEof,
    TimedOut,
    ConnectionAborted,
    NotFound,
}

/// A failure: its kind and the message that goes with it.
#[derive(Debug)]
pub struct ProxyError {
    pub kind: FailureKind,
    pub message: String,
}

impl ProxyError {
    pub fn new(kind: FailureKind, message: &str) -> (r: ProxyError)
        ensures
            r.kind == kind,
            r.message@ == message@,
    {
        ProxyError { kind, message: message.to_owned() }
    }

    /// Whether this failure has `kind` and `message`.
    pub open spec fn is(&self, kind: FailureKind, message: Seq<char>) -> bool {
        self.kind == kind && self.message@ == message
    }
}

} // verus!
