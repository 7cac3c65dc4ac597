//! The Fibonacci cursor behind a timer: each pull waits a delay counted from
//! the moment the pull was requested, long for the first term and shorter for
//! every later one.
//!
//! The timer itself lives with the caller. This type is told the clock
//! reading at each poll: the first poll of a pull arms the pull's delay at that
//! reading, and later polls complete the pull once the delay has passed.
use vstd::prelude::*;
use crate::fibonacci::{term, FibonacciIterator};

verus! {

/// Wait before the first term, in milliseconds.
pub const INITIAL_DELAY_MS: u64 = 100;

/// Wait before every later term, in milliseconds.
pub const STEADY_DELAY_MS: u64 = 50;

/// The delay of the `k`-th pull, counted from zero.
pub open spec fn delay(k: nat) -> nat {
    if k == 0 {
        INITIAL_DELAY_MS as nat
    } else {
        STEADY_DELAY_MS as nat
    }
}

/// What a poll of a paced producer gives back.
pub enum PacedPoll {
    /// The pull has not completed yet; no term was consumed.
    Pending,
    /// The pull completed and the cursor moved one step.
    Ready(Option<usize>),
}

/// The abstract state of a paced producer: how many terms it has delivered,
/// and the clock reading at which the pending pull was requested, if one is.
pub struct PacedModel {
    pub pos: nat,
    pub requested_at: Option<u64>,
}

/// One poll at clock reading `now`. A poll with no pull pending requests one
/// at `now`. A pending pull completes once its delay has passed since it was
/// requested, and hands out the next term; before that nothing changes.
pub open spec fn poll_model(m: PacedModel, now: u64) -> (PacedModel, PacedPoll) {
    match m.requested_at {
        None => (PacedModel { pos: m.pos, requested_at: Some(now) }, PacedPoll::Pending),
        Some(q) => if now >= q + delay(m.pos) {
            (PacedModel { pos: m.pos + 1, requested_at: None }, PacedPoll::Ready(term(m.pos)))
        } else {
            (m, PacedPoll::Pending)
        },
    }
}

/// A producer that has delivered nothing and has no pull pending.
pub open spec fn fresh() -> PacedModel {
    PacedModel { pos: 0, requested_at: None }
}

/// A Fibonacci cursor that hands out a term only once the pull's delay has
/// passed.
pub struct PacedFibonacci {
    cursor: FibonacciIterator,
    started: bool,
    requested_at: Option<u64>,
}

impl PacedFibonacci {
    pub closed spec fn view(&self) -> PacedModel {
        PacedModel { pos: self.cursor.pos(), requested_at: self.requested_at }
    }

    pub closed spec fn wf(&self) -> bool {
        &&& self.cursor.wf()
        &&& self.started == (self.cursor.pos() > 0)
    }

    /// A fresh producer: no term delivered and no pull pending.
    pub fn new() -> (r: Self)
        ensures
            r.wf(),
            r@ == fresh(),
    {
        PacedFibonacci { cursor: FibonacciIterator::new(), started: false, requested_at: None }
    }

    /// The clock reading at which the pending pull was requested, if one is.
    pub fn requested_at(&self) -> (r: Option<u64>)
        ensures
            r == self@.requested_at,
    {
        self.requested_at
    }

    /// The delay of the next pull, in milliseconds.
    pub fn next_delay_ms(&self) -> (r: u64)
        requires
            self.wf(),
        ensures
            r == delay(self@.pos),
    {
        if self.started {
            STEADY_DELAY_MS
        } else {
            INITIAL_DELAY_MS
        }
    }

    /// Polls at clock reading `now`, as `poll_model` describes it.
    pub fn poll(&mut self, now: u64) -> (r: PacedPoll)
        requires
            old(self).wf(),
        ensures
            final(self).wf(),
            (final(self)@, r) == poll_model(old(self)@, now),
    {
        match self.requested_at {
            None => {
                self.requested_at = Some(now);
                PacedPoll::Pending
            },
            Some(q) => {
                let d = self.next_delay_ms();
                if now >= q && now - q >= d {
                    let item = self.cursor.next();
                    self.started = true;
                    self.requested_at = None;
                    PacedPoll::Ready(item)
                } else {
                    PacedPoll::Pending
                }
            },
        }
    }
}

/// Polls at each clock reading of `times` in turn, with their results in order.
pub open spec fn run_model(m: PacedModel, times: Seq<u64>) -> (PacedModel, Seq<PacedPoll>)
    decreases times.len(),
{
    if times.len() == 0 {
        (m, Seq::empty())
    } else {
        let (m1, p) = poll_model(m, times[0]);
        let (m2, ps) = run_model(m1, times.drop_first());
        (m2, seq![p] + ps)
    }
}

/// The terms handed out by the completed polls among `polls`, in order.
pub open spec fn ready_values(polls: Seq<PacedPoll>) -> Seq<Option<usize>>
    decreases polls.len(),
{
    if polls.len() == 0 {
        Seq::empty()
    } else {
        let head: Seq<Option<usize>> = match polls[0] {
            PacedPoll::Ready(v) => seq![v],
            PacedPoll::Pending => Seq::empty(),
        };
        head + ready_values(polls.drop_first())
    }
}

/// Clock readings that never go backwards.
pub open spec fn nondecreasing(times: Seq<u64>) -> bool {
    forall|i: int, j: int| 0 <= i <= j < times.len() ==> times[i] <= times[j]
}

/// From any state, the completed polls of a run hand out the next terms in
/// order, one per completion.
pub proof fn lemma_run_values(m: PacedModel, times: Seq<u64>)
    ensures
        run_model(m, times).0.pos >= m.pos,
        ready_values(run_model(m, times).1) == Seq::new(
            (run_model(m, times).0.pos - m.pos) as nat,
            |i: int| term((m.pos + i) as nat),
        ),
    decreases times.len(),
{
    if times.len() == 0 {
        assert(ready_values(Seq::<PacedPoll>::empty()) =~= Seq::new(0, |i: int| term((m.pos + i) as nat)));
    } else {
        let (m1, p) = poll_model(m, times[0]);
        let rest = times.drop_first();
        lemma_run_values(m1, rest);
        let (m2, ps) = run_model(m1, rest);
        let polls = seq![p] + ps;
        assert(polls.drop_first() =~= ps);
        assert(polls[0] == p);
        let n = (m2.pos - m.pos) as nat;
        match p {
            PacedPoll::Ready(v) => {
                assert(seq![v] + Seq::new((m2.pos - m1.pos) as nat, |i: int| term((m1.pos + i) as nat))
                    =~= Seq::new(n, |i: int| term((m.pos + i) as nat)));
            },
            PacedPoll::Pending => {
                assert(Seq::<Option<usize>>::empty() + Seq::new(
                    (m2.pos - m1.pos) as nat,
                    |i: int| term((m1.pos + i) as nat),
                ) =~= Seq::new(n, |i: int| term((m.pos + i) as nat)));
            },
        }
    }
}

/// Whatever the clock readings of the polls, the terms a fresh producer hands
/// out are the Fibonacci prefix `term(0), term(1), ...`, one per completed
/// pull.
pub proof fn lemma_paced_prefix(times: Seq<u64>)
    ensures
        ready_values(run_model(fresh(), times).1) == Seq::new(
            run_model(fresh(), times).0.pos,
            |i: int| term(i as nat),
        ),
{
    lemma_run_values(fresh(), times);
    assert(Seq::new((run_model(fresh(), times).0.pos - 0) as nat, |i: int| term((0 + i) as nat))
        =~= Seq::new(run_model(fresh(), times).0.pos, |i: int| term(i as nat)));
}

/// Pacing from any state: with clock readings that never go backwards, all at
/// or after `base`, and a pending pull (if any) requested at or after `base`,
/// the last reading of a run that completed `n >= 1` pulls is at least
/// `base + delay(pos) + 50 * (n - 1)`.
pub proof fn lemma_run_pacing(m: PacedModel, times: Seq<u64>, base: int)
    requires
        nondecreasing(times),
        forall|i: int| 0 <= i < times.len() ==> base <= #[trigger] times[i],
        m.requested_at matches Some(q) ==> base <= q,
    ensures
        run_model(m, times).0.pos > m.pos ==> times.last() >= base + delay(m.pos)
            + STEADY_DELAY_MS * (run_model(m, times).0.pos - m.pos - 1),
    decreases times.len(),
{
    if times.len() > 0 {
        let t0 = times[0];
        let (m1, p) = poll_model(m, t0);
        let rest = times.drop_first();
        let (m2, ps) = run_model(m1, rest);
        if rest.len() > 0 {
            assert(rest.last() == times.last());
        }
        assert(times.last() >= t0);
        match m.requested_at {
            None => {
                lemma_run_pacing(m1, rest, base);
            },
            Some(q) => {
                if t0 >= q + delay(m.pos) {
                    assert forall|i: int| 0 <= i < rest.len() implies t0 <= #[trigger] rest[i] by {
                        assert(rest[i] == times[i + 1]);
                    }
                    lemma_run_pacing(m1, rest, t0 as int);
                } else {
                    lemma_run_pacing(m1, rest, base);
                }
            },
        }
    }
}

/// Pacing: polling a fresh producer at clock readings that never go
/// backwards, the first pull completes no earlier than the initial delay
/// after it was requested and every later pull no earlier than the steady
/// delay after it was requested, itself after the previous completion. So once
/// `n >= 1` pulls have completed, the clock has moved at least
/// `100 + 50 * (n - 1)` past the first poll.
pub proof fn lemma_pacing(times: Seq<u64>)
    requires
        nondecreasing(times),
        run_model(fresh(), times).0.pos >= 1,
    ensures
        times.last() >= times[0] + INITIAL_DELAY_MS + STEADY_DELAY_MS * (run_model(
            fresh(),
            times,
        ).0.pos - 1),
{
    if times.len() == 0 {
        assert(run_model(fresh(), times).0.pos == 0);
    }
    lemma_run_pacing(fresh(), times, times[0] as int);
}

} // verus!
