//! The Fibonacci recurrence as a cursor that yields one term per pull.
use vstd::prelude::*;

verus! {

/// The Fibonacci numbers: `fib(0) == 0`, `fib(1) == 1`, and every later term
/// is the sum of the two before it.
pub open spec fn fib(n: nat) -> nat
    decreases n,
{
    if n == 0 {
        0
    } else if n == 1 {
        1
    } else {
        fib((n - 2) as nat) + fib((n - 1) as nat)
    }
}

/// The `k`-th term as a machine word, or `None` once the term no longer fits.
pub open spec fn term(k: nat) -> Option<usize> {
    if fib(k) <= usize::MAX {
        Some(fib(k) as usize)
    } else {
        None
    }
}

/// Each term is at least as large as the one before it.
pub proof fn lemma_fib_monotone(i: nat, j: nat)
    requires
        i <= j,
    ensures
        fib(i) <= fib(j),
    decreases j - i,
{
    if i < j {
        lemma_fib_monotone(i, (j - 1) as nat);
        if j >= 2 {
            assert(fib(j) == fib((j - 2) as nat) + fib((j - 1) as nat));
        }
    }
}

/// Cursor over the Fibonacci sequence. It holds the next two terms while they
/// fit in a `usize`; once a term overflows the sequence ends instead of
/// wrapping around.
pub struct FibonacciIterator {
    curr: Option<usize>,
    next: Option<usize>,
    pos: Ghost<nat>,
}

impl FibonacciIterator {
    /// How many pulls the cursor has served so far.
    pub closed spec fn pos(&self) -> nat {
        self.pos@
    }

    /// The cursor holds the terms at its position and the one after it.
    pub closed spec fn wf(&self) -> bool {
        &&& self.curr == term(self.pos@)
        &&& self.next == term(self.pos@ + 1)
    }

    /// A fresh cursor positioned at `fib(0)`.
    pub fn new() -> (r: Self)
        ensures
            r.wf(),
            r.pos() == 0,
    {
        proof {
            assert(fib(0) == 0);
            assert(fib(1) == 1);
        }
        FibonacciIterator { curr: Some(0), next: Some(1), pos: Ghost(0) }
    }

    /// Yields the term at the current position and moves one step forward.
    /// The result is `None` exactly when that term does not fit in a `usize`.
    pub fn next(&mut self) -> (r: Option<usize>)
        requires
            old(self).wf(),
        ensures
            final(self).wf(),
            final(self).pos() == old(self).pos() + 1,
            r == term(old(self).pos()),
    {
        let result = self.curr;
        let after = match (self.curr, self.next) {
            (Some(a), Some(b)) => a.checked_add(b),
            _ => None,
        };
        proof {
            let k = self.pos@;
            assert(fib(k + 2) == fib(k) + fib(k + 1));
        }
        self.curr = self.next;
        self.next = after;
        self.pos = Ghost(self.pos@ + 1);
        result
    }
}

/// The first `n` terms, or fewer if the sequence ends before that.
pub fn fibonacci_prefix(n: usize) -> (r: Vec<usize>)
    ensures
        r.len() <= n,
        forall|i: int| 0 <= i < r.len() ==> term(i as nat) == Some(r[i]),
        r.len() == n || term(r.len() as nat) is None,
{
    let mut it = FibonacciIterator::new();
    let mut out: Vec<usize> = Vec::new();
    let mut i: usize = 0;
    while i < n
        invariant
            it.wf(),
            it.pos() == i,
            out.len() == i,
            i <= n,
            forall|j: int| 0 <= j < out.len() ==> term(j as nat) == Some(out[j]),
        decreases n - i,
    {
        match it.next() {
            Some(v) => {
                out.push(v);
            },
            None => {
                return out;
            },
        }
        i = i + 1;
    }
    out
}

/// Three consecutive pulls obey the recurrence: whenever the third one yields
/// a value, so do the first two, and it is their sum.
pub proof fn lemma_emitted_recurrence(k: nat)
    requires
        term(k + 2) is Some,
    ensures
        term(k) is Some,
        term(k + 1) is Some,
        term(k + 2)->0 == term(k)->0 + term(k + 1)->0,
{
    assert(fib(k + 2) == fib(k) + fib(k + 1));
}

/// The first forty terms all fit in a machine word, so the first forty pulls
/// of a fresh cursor all yield values.
pub proof fn lemma_first_forty_fit(k: nat)
    requires
        k < 40,
    ensures
        term(k) == Some(fib(k) as usize),
{
    assert(fib(0) == 0);
    assert(fib(1) == 1);
    assert(fib(2) == 1);
    assert(fib(3) == 2);
    assert(fib(4) == 3);
    assert(fib(5) == 5);
    assert(fib(6) == 8);
    assert(fib(7) == 13);
    assert(fib(8) == 21);
    assert(fib(9) == 34);
    assert(fib(10) == 55);
    assert(fib(11) == 89);
    assert(fib(12) == 144);
    assert(fib(13) == 233);
    assert(fib(14) == 377);
    assert(fib(15) == 610);
    assert(fib(16) == 987);
    assert(fib(17) == 1597);
    assert(fib(18) == 2584);
    assert(fib(19) == 4181);
    assert(fib(20) == 6765);
    assert(fib(21) == 10946);
    assert(fib(22) == 17711);
    assert(fib(23) == 28657);
    assert(fib(24) == 46368);
    assert(fib(25) == 75025);
    assert(fib(26) == 121393);
    assert(fib(27) == 196418);
    assert(fib(28) == 317811);
    assert(fib(29) == 514229);
    assert(fib(30) == 832040);
    assert(fib(31) == 1346269);
    assert(fib(32) == 2178309);
    assert(fib(33) == 3524578);
    assert(fib(34) == 5702887);
    assert(fib(35) == 9227465);
    assert(fib(36) == 14930352);
    assert(fib(37) == 24157817);
    assert(fib(38) == 39088169);
    assert(fib(39) == 63245986);
    lemma_fib_monotone(k, 39);
}

} // verus!
