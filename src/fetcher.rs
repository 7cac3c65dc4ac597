//! A producer of strings that drains fetched pages one item per pull and asks
//! for a new page when the current one is used up.
//!
//! The request itself is made by the caller: a pull either completes from the
//! current page or answers `Request`, and the caller then hands the response
//! to `receive`.
use vstd::prelude::*;
use crate::bridge::PullOutcome;
use crate::error::IteratorError;

verus! {

/// What a failed request does to the sequence.
#[derive(Clone, Copy, Debug, PartialEq, Eq, Structural)]
pub enum FetchPolicy {
    /// The failure is reported once and the next pull requests again.
    FailOpen,
    /// The failure is reported once and the sequence is poisoned: every later
    /// pull ends the sequence.
    FailClosed,
}

/// The answer to one pull or to one response.
pub enum FetchStep {
    /// The pull completes with this outcome.
    Emit(PullOutcome<String>),
    /// The current page is used up: the caller must fetch a page and hand the
    /// response to `receive`.
    Request,
}

/// The abstract state of a fetcher: the items of the current page not yet
/// handed out, in response order, and whether a failure poisoned it.
pub struct FetcherModel {
    pub policy: FetchPolicy,
    pub pending: Seq<String>,
    pub poisoned: bool,
}

/// One pull: a poisoned fetcher ends the sequence, otherwise the first pending
/// item is handed out, and with none pending a new page is requested.
pub open spec fn pull_model(m: FetcherModel) -> (FetcherModel, FetchStep) {
    if m.poisoned {
        (m, FetchStep::Emit(PullOutcome::EndOfSequence))
    } else if m.pending.len() > 0 {
        (
            FetcherModel { policy: m.policy, pending: m.pending.drop_first(), poisoned: false },
            FetchStep::Emit(PullOutcome::Value(m.pending[0])),
        )
    } else {
        (m, FetchStep::Request)
    }
}

/// One response: the items of a page join the pending ones and the pull goes
/// on with them; a failure is reported for this pull, and poisons the fetcher
/// under the fail-closed policy.
pub open spec fn receive_model(m: FetcherModel, response: Result<Vec<String>, IteratorError>) -> (
    FetcherModel,
    FetchStep,
) {
    if m.poisoned {
        (m, FetchStep::Emit(PullOutcome::EndOfSequence))
    } else {
        match response {
            Ok(items) => pull_model(
                FetcherModel { policy: m.policy, pending: m.pending + items@, poisoned: false },
            ),
            Err(e) => (
                FetcherModel {
                    policy: m.policy,
                    pending: m.pending,
                    poisoned: m.policy == FetchPolicy::FailClosed,
                },
                FetchStep::Emit(PullOutcome::Failure(e)),
            ),
        }
    }
}

/// One complete pull against a queue of responses: when the pull needs a page
/// the next response is taken from the front of the queue, until the pull
/// completes. `None` means the queue ran out before it did.
pub open spec fn serve_model(m: FetcherModel, responses: Seq<Result<Vec<String>, IteratorError>>) -> (
    FetcherModel,
    Seq<Result<Vec<String>, IteratorError>>,
    Option<PullOutcome<String>>,
) {
    let (m1, step) = pull_model(m);
    match step {
        FetchStep::Emit(o) => (m1, responses, Some(o)),
        FetchStep::Request => serve_requested(m1, responses),
    }
}

/// The rest of a pull that is waiting for a page.
pub open spec fn serve_requested(m: FetcherModel, responses: Seq<Result<Vec<String>, IteratorError>>) -> (
    FetcherModel,
    Seq<Result<Vec<String>, IteratorError>>,
    Option<PullOutcome<String>>,
)
    decreases responses.len(),
{
    if responses.len() == 0 {
        (m, responses, None)
    } else {
        let (m1, step) = receive_model(m, responses[0]);
        match step {
            FetchStep::Emit(o) => (m1, responses.drop_first(), Some(o)),
            FetchStep::Request => serve_requested(m1, responses.drop_first()),
        }
    }
}

/// `n` complete pulls in a row against one queue of responses, with their
/// outcomes in order.
pub open spec fn serve_times(
    m: FetcherModel,
    responses: Seq<Result<Vec<String>, IteratorError>>,
    n: nat,
) -> (FetcherModel, Seq<Result<Vec<String>, IteratorError>>, Seq<Option<PullOutcome<String>>>)
    decreases n,
{
    if n == 0 {
        (m, responses, Seq::empty())
    } else {
        let (m1, rs1, o) = serve_model(m, responses);
        let (m2, rs2, os) = serve_times(m1, rs1, (n - 1) as nat);
        (m2, rs2, seq![o] + os)
    }
}

/// The fetcher's state machine; see `FetcherModel` for what it stands for.
pub struct PageFetcher {
    policy: FetchPolicy,
    page: Vec<String>,
    poisoned: bool,
}

impl PageFetcher {
    pub closed spec fn view(&self) -> FetcherModel {
        FetcherModel { policy: self.policy, pending: self.page@, poisoned: self.poisoned }
    }

    /// A fetcher with no page yet: its first pull requests one.
    pub fn new(policy: FetchPolicy) -> (r: Self)
        ensures
            r@ == (FetcherModel { policy, pending: Seq::empty(), poisoned: false }),
    {
        PageFetcher { policy, page: Vec::new(), poisoned: false }
    }

    pub fn policy(&self) -> (r: FetchPolicy)
        ensures
            r == self@.policy,
    {
        self.policy
    }

    pub fn is_poisoned(&self) -> (r: bool)
        ensures
            r == self@.poisoned,
    {
        self.poisoned
    }

    /// Number of items of the current page not yet handed out.
    pub fn pending_len(&self) -> (r: usize)
        ensures
            r == self@.pending.len(),
    {
        self.page.len()
    }

    /// One pull, as `pull_model` describes it.
    pub fn pull(&mut self) -> (r: FetchStep)
        ensures
            (final(self)@, r) == pull_model(old(self)@),
    {
        if self.poisoned {
            FetchStep::Emit(PullOutcome::EndOfSequence)
        } else if self.page.len() > 0 {
            let item = self.page.remove(0);
            proof {
                assert(self.page@ =~= old(self)@.pending.drop_first());
            }
            FetchStep::Emit(PullOutcome::Value(item))
        } else {
            FetchStep::Request
        }
    }

    /// Hands over the response to a request, as `receive_model` describes it.
    pub fn receive(&mut self, response: Result<Vec<String>, IteratorError>) -> (r: FetchStep)
        ensures
            (final(self)@, r) == receive_model(old(self)@, response),
    {
        if self.poisoned {
            return FetchStep::Emit(PullOutcome::EndOfSequence);
        }
        match response {
            Ok(items) => {
                let mut items = items;
                self.page.append(&mut items);
                self.pull()
            },
            Err(e) => {
                if self.policy == FetchPolicy::FailClosed {
                    self.poisoned = true;
                }
                FetchStep::Emit(PullOutcome::Failure(e))
            },
        }
    }

    /// One complete pull, as `serve_model` describes it, taking the responses
    /// it needs from the front of `responses`.
    pub fn serve(&mut self, responses: &mut Vec<Result<Vec<String>, IteratorError>>) -> (r: Option<
        PullOutcome<String>,
    >)
        ensures
            (final(self)@, final(responses)@, r) == serve_model(old(self)@, old(responses)@),
    {
        match self.pull() {
            FetchStep::Emit(o) => Some(o),
            FetchStep::Request => {
                loop
                    invariant
                        serve_model(old(self)@, old(responses)@) == serve_requested(
                            self@,
                            responses@,
                        ),
                    decreases responses.len(),
                {
                    if responses.len() == 0 {
                        return None;
                    }
                    let ghost before = responses@;
                    let response = responses.remove(0);
                    assert(responses@ =~= before.drop_first());
                    match self.receive(response) {
                        FetchStep::Emit(o) => {
                            return Some(o);
                        },
                        FetchStep::Request => {},
                    }
                }
            },
        }
    }
}

} // verus!

verus! {

/// A fetcher that waits for a page: nothing pending and not poisoned.
pub open spec fn awaiting_page(m: FetcherModel) -> bool {
    !m.poisoned && m.pending.len() == 0
}

/// Fail-open: a failed response is reported once, for the pull that met it,
/// and leaves the fetcher exactly as it was. So the next pull requests a page
/// again and goes on as if the failure had not happened, whatever the queue of
/// responses holds.
pub proof fn lemma_fail_open_recovers(
    m: FetcherModel,
    e: IteratorError,
    rest: Seq<Result<Vec<String>, IteratorError>>,
)
    requires
        m.policy == FetchPolicy::FailOpen,
        awaiting_page(m),
    ensures
        serve_model(m, seq![Err(e)] + rest) == (m, rest, Some(PullOutcome::<String>::Failure(e))),
        pull_model(m).1 is Request,
{
    let rs = seq![Err(e)] + rest;
    assert(rs[0] == Err::<Vec<String>, IteratorError>(e));
    assert(rs.drop_first() =~= rest);
    assert(m == (FetcherModel { policy: m.policy, pending: m.pending, poisoned: false }));
}

/// Under the fail-open policy no pull and no response ever poisons the
/// fetcher.
pub proof fn lemma_fail_open_never_poisoned(
    m: FetcherModel,
    response: Result<Vec<String>, IteratorError>,
)
    requires
        m.policy == FetchPolicy::FailOpen,
        !m.poisoned,
    ensures
        !pull_model(m).0.poisoned,
        !receive_model(m, response).0.poisoned,
        pull_model(m).0.policy == FetchPolicy::FailOpen,
        receive_model(m, response).0.policy == FetchPolicy::FailOpen,
{
}

/// Fail-closed: a failed response is reported once and poisons the fetcher.
pub proof fn lemma_fail_closed_poisons(
    m: FetcherModel,
    e: IteratorError,
    rest: Seq<Result<Vec<String>, IteratorError>>,
)
    requires
        m.policy == FetchPolicy::FailClosed,
        awaiting_page(m),
    ensures
        serve_model(m, seq![Err(e)] + rest).1 == rest,
        serve_model(m, seq![Err(e)] + rest).2 == Some(PullOutcome::<String>::Failure(e)),
        serve_model(m, seq![Err(e)] + rest).0.poisoned,
{
    let rs = seq![Err(e)] + rest;
    assert(rs[0] == Err::<Vec<String>, IteratorError>(e));
    assert(rs.drop_first() =~= rest);
}

/// A poisoned fetcher is terminal: every pull ends the sequence at once,
/// takes no response and changes nothing; never a value, never a failure.
pub proof fn lemma_poisoned_is_terminal(
    m: FetcherModel,
    responses: Seq<Result<Vec<String>, IteratorError>>,
    n: nat,
)
    requires
        m.poisoned,
    ensures
        serve_times(m, responses, n) == (
            m,
            responses,
            Seq::new(n, |i: int| Some(PullOutcome::<String>::EndOfSequence)),
        ),
    decreases n,
{
    if n > 0 {
        lemma_poisoned_is_terminal(m, responses, (n - 1) as nat);
        assert(seq![Some(PullOutcome::<String>::EndOfSequence)] + Seq::new(
            (n - 1) as nat,
            |i: int| Some(PullOutcome::<String>::EndOfSequence),
        ) =~= Seq::new(n, |i: int| Some(PullOutcome::<String>::EndOfSequence)));
    }
}

/// The outcomes that hand out `items` one by one.
pub open spec fn values_of(items: Seq<String>) -> Seq<Option<PullOutcome<String>>> {
    Seq::new(items.len(), |i: int| Some(PullOutcome::Value(items[i])))
}

/// Pulls on a fetcher with pending items hand them out in order and take no
/// response.
pub proof fn lemma_pending_drained(
    m: FetcherModel,
    responses: Seq<Result<Vec<String>, IteratorError>>,
    n: nat,
)
    requires
        !m.poisoned,
        n <= m.pending.len(),
    ensures
        serve_times(m, responses, n) == (
            FetcherModel { policy: m.policy, pending: m.pending.skip(n as int), poisoned: false },
            responses,
            values_of(m.pending.take(n as int)),
        ),
    decreases n,
{
    if n == 0 {
        assert(m.pending.skip(0) =~= m.pending);
        assert(values_of(m.pending.take(0)) =~= Seq::empty());
    } else {
        let m1 = FetcherModel {
            policy: m.policy,
            pending: m.pending.drop_first(),
            poisoned: false,
        };
        lemma_pending_drained(m1, responses, (n - 1) as nat);
        assert(m1.pending.skip((n - 1) as int) =~= m.pending.skip(n as int));
        assert(seq![Some(PullOutcome::Value(m.pending[0]))] + values_of(
            m1.pending.take((n - 1) as int),
        ) =~= values_of(m.pending.take(n as int)));
    }
}

/// Batch draining: once a page of `k` items arrives for a fetcher that waits
/// for one, exactly `k` pulls hand out those items in response order, taking
/// that one response, and the pull after them requests a new page.
pub proof fn lemma_page_drained(
    m: FetcherModel,
    items: Vec<String>,
    rest: Seq<Result<Vec<String>, IteratorError>>,
)
    requires
        awaiting_page(m),
        items@.len() > 0,
    ensures
        serve_times(m, seq![Ok(items)] + rest, items@.len()) == (
            FetcherModel { policy: m.policy, pending: Seq::empty(), poisoned: false },
            rest,
            values_of(items@),
        ),
        pull_model(serve_times(m, seq![Ok(items)] + rest, items@.len()).0).1 is Request,
{
    let rs = seq![Ok(items)] + rest;
    let k = items@.len();
    assert(rs[0] == Ok::<Vec<String>, IteratorError>(items));
    assert(rs.drop_first() =~= rest);
    assert(m.pending + items@ =~= items@);
    let m1 = FetcherModel { policy: m.policy, pending: items@.drop_first(), poisoned: false };
    assert(serve_model(m, rs) == (m1, rest, Some(PullOutcome::Value(items@[0]))));
    lemma_pending_drained(m1, rest, (k - 1) as nat);
    assert(m1.pending.skip((k - 1) as int) =~= Seq::<String>::empty());
    assert(seq![Some(PullOutcome::Value(items@[0]))] + values_of(m1.pending.take((k - 1) as int))
        =~= values_of(items@));
}

} // verus!

verus! {

/// Pulls compose: `a + b` pulls are `a` pulls followed by `b` more from where
/// those left off.
pub proof fn lemma_serve_times_split(
    m: FetcherModel,
    responses: Seq<Result<Vec<String>, IteratorError>>,
    a: nat,
    b: nat,
)
    ensures
        serve_times(m, responses, a + b) == ({
            let (m1, rs1, os1) = serve_times(m, responses, a);
            let (m2, rs2, os2) = serve_times(m1, rs1, b);
            (m2, rs2, os1 + os2)
        }),
    decreases a,
{
    if a == 0 {
        assert(Seq::<Option<PullOutcome<String>>>::empty() + serve_times(m, responses, b).2
            =~= serve_times(m, responses, b).2);
    } else {
        let (m1, rs1, o) = serve_model(m, responses);
        lemma_serve_times_split(m1, rs1, (a - 1) as nat, b);
        assert((a + b - 1) as nat == (a - 1) as nat + b);
        let os1 = serve_times(m1, rs1, (a - 1) as nat).2;
        let r = serve_times(m1, rs1, (a - 1) as nat);
        let os2 = serve_times(r.0, r.1, b).2;
        assert(seq![o] + (os1 + os2) =~= (seq![o] + os1) + os2);
    }
}

/// What a fail-open fetcher hands out for a queue of responses: the items of
/// each page in response order, and one failure for each failed response.
pub open spec fn fail_open_outcomes(responses: Seq<Result<Vec<String>, IteratorError>>) -> Seq<
    Option<PullOutcome<String>>,
>
    decreases responses.len(),
{
    if responses.len() == 0 {
        Seq::empty()
    } else {
        let head = match responses[0] {
            Ok(items) => values_of(items@),
            Err(e) => seq![Some(PullOutcome::Failure(e))],
        };
        head + fail_open_outcomes(responses.drop_first())
    }
}

/// A fail-open fetcher that waits for a page and pulls once for each outcome
/// listed by `fail_open_outcomes` gets exactly those outcomes, in that order,
/// whatever failures the responses hold: no failure ends the sequence or
/// swallows a later page. Afterwards it waits for a page again.
pub proof fn lemma_fail_open_sequence(
    m: FetcherModel,
    responses: Seq<Result<Vec<String>, IteratorError>>,
)
    requires
        m.policy == FetchPolicy::FailOpen,
        awaiting_page(m),
    ensures
        serve_times(m, responses, fail_open_outcomes(responses).len()).2 == fail_open_outcomes(
            responses,
        ),
        serve_times(m, responses, fail_open_outcomes(responses).len()).0 == m,
    decreases responses.len(),
{
    if responses.len() > 0 {
        let rest = responses.drop_first();
        assert(responses =~= seq![responses[0]] + rest);
        lemma_fail_open_sequence(m, rest);
        let n_rest = fail_open_outcomes(rest).len();
        match responses[0] {
            Err(e) => {
                lemma_fail_open_recovers(m, e, rest);
                assert(responses =~= seq![Err(e)] + rest);
                lemma_serve_times_split(m, responses, 1, n_rest);
                let one = seq![Some(PullOutcome::<String>::Failure(e))];
                assert(one + Seq::<Option<PullOutcome<String>>>::empty() =~= one);
                assert(serve_model(m, responses) == (m, rest, Some(PullOutcome::<String>::Failure(e))));
                assert(serve_times(m, rest, 0) == (m, rest, Seq::<Option<PullOutcome<String>>>::empty()));
                assert(serve_times(m, responses, 1) == (m, rest, one));
            },
            Ok(items) => {
                let k = items@.len();
                if k > 0 {
                    lemma_page_drained(m, items, rest);
                    assert(m.pending =~= Seq::<String>::empty());
                    lemma_serve_times_split(m, responses, k, n_rest);
                } else {
                    assert(values_of(items@) =~= Seq::empty());
                    assert(fail_open_outcomes(responses) =~= fail_open_outcomes(rest));
                    lemma_empty_page_skipped(m, items, rest, n_rest);
                }
            },
        }
    } else {
        assert(fail_open_outcomes(responses) =~= Seq::empty());
    }
}

/// An empty page takes one response and hands out nothing: the pulls go on
/// with the responses after it.
pub proof fn lemma_empty_page_skipped(
    m: FetcherModel,
    items: Vec<String>,
    rest: Seq<Result<Vec<String>, IteratorError>>,
    n: nat,
)
    requires
        awaiting_page(m),
        items@.len() == 0,
    ensures
        serve_times(m, seq![Ok(items)] + rest, n).2 == serve_times(m, rest, n).2,
        serve_times(m, seq![Ok(items)] + rest, n).0 == serve_times(m, rest, n).0,
{
    let rs = seq![Ok(items)] + rest;
    assert(rs[0] == Ok::<Vec<String>, IteratorError>(items));
    assert(rs.drop_first() =~= rest);
    assert(m.pending + items@ =~= m.pending);
    if n > 0 {
        assert(serve_model(m, rs) == serve_model(m, rest));
    }
}

} // verus!
