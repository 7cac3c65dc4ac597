//! The consumer-facing side of a producer: one pull gives exactly one outcome.
use vstd::prelude::*;
use crate::error::IteratorError;
use crate::fibonacci::{term, FibonacciIterator};

verus! {

/// What a consumer gets from one pull.
pub enum PullOutcome<T> {
    /// The next item of the sequence.
    Value(T),
    /// The sequence has ended; no item was produced.
    EndOfSequence,
    /// The producer reported a failure for this pull.
    Failure(IteratorError),
}

/// Translates the item of an infallible sequence: a value stays a value and
/// the absence of one is the end of the sequence.
pub fn outcome_of<T>(item: Option<T>) -> (r: PullOutcome<T>)
    ensures
        r == match item {
            Some(v) => PullOutcome::Value(v),
            None => PullOutcome::<T>::EndOfSequence,
        },
{
    match item {
        Some(v) => PullOutcome::Value(v),
        None => PullOutcome::EndOfSequence,
    }
}

/// Translates the item of a fallible sequence. The error is handed on as it
/// came, for this pull only: nothing is invented and nothing is dropped.
pub fn outcome_of_result<T>(item: Option<Result<T, IteratorError>>) -> (r: PullOutcome<T>)
    ensures
        r == match item {
            Some(Ok(v)) => PullOutcome::Value(v),
            Some(Err(e)) => PullOutcome::<T>::Failure(e),
            None => PullOutcome::<T>::EndOfSequence,
        },
{
    match item {
        Some(Ok(v)) => PullOutcome::Value(v),
        Some(Err(e)) => PullOutcome::Failure(e),
        None => PullOutcome::EndOfSequence,
    }
}

/// Synchronous bridge over the Fibonacci cursor: every pull returns at once.
pub struct NumberIteratorSync {
    iter: FibonacciIterator,
}

impl NumberIteratorSync {
    /// Number of pulls served so far.
    pub closed spec fn pos(&self) -> nat {
        self.iter.pos()
    }

    pub closed spec fn wf(&self) -> bool {
        self.iter.wf()
    }

    /// A bridge over a fresh cursor.
    pub fn new() -> (r: Self)
        ensures
            r.wf(),
            r.pos() == 0,
    {
        NumberIteratorSync { iter: FibonacciIterator::new() }
    }

    /// Advances the cursor by exactly one step. The `k`-th pull yields
    /// `fib(k)` while it fits in a `usize`, and the end of the sequence after.
    pub fn pull_next(&mut self) -> (r: PullOutcome<usize>)
        requires
            old(self).wf(),
        ensures
            final(self).wf(),
            final(self).pos() == old(self).pos() + 1,
            r == match term(old(self).pos()) {
                Some(v) => PullOutcome::Value(v),
                None => PullOutcome::<usize>::EndOfSequence,
            },
    {
        outcome_of(self.iter.next())
    }
}

} // verus!
