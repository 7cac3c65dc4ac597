//! The failure a producer can report on a pull.
use vstd::prelude::*;

verus! {

/// Why a pull failed.
#[derive(Clone, Copy, Debug, PartialEq, Eq, Structural)]
pub enum ErrorKind {
    /// The request did not reach the remote side or got no answer.
    Transport,
    /// The answer did not have the expected shape.
    Decode,
}

/// A failure reported by a producer, with a message meant for people. Each
/// failure stands on its own: it carries no retry state.
pub struct IteratorError {
    pub kind: ErrorKind,
    pub message: String,
}

impl IteratorError {
    pub fn new(kind: ErrorKind, message: String) -> (r: Self)
        ensures
            r.kind == kind,
            r.message == message,
    {
        IteratorError { kind, message }
    }

    pub fn kind(&self) -> (r: ErrorKind)
        ensures
            r == self.kind,
    {
        self.kind
    }

    pub fn message(&self) -> (r: &str)
        ensures
            r@ == self.message@,
    {
        self.message.as_str()
    }
}

} // verus!
