use python_async_iterator::paced::{PacedFibonacci, PacedPoll, INITIAL_DELAY_MS, STEADY_DELAY_MS};

/// Pulls one term the way a caller with a timer does: the first poll requests
/// the pull, then the caller sleeps the delay and polls again.
fn pull_at(gen: &mut PacedFibonacci, requested: u64) -> (Option<usize>, u64) {
    let delay = gen.next_delay_ms();
    assert!(matches!(gen.poll(requested), PacedPoll::Pending));
    assert_eq!(gen.requested_at(), Some(requested));
    assert!(matches!(gen.poll(requested + delay - 1), PacedPoll::Pending));
    let done = requested + delay;
    match gen.poll(done) {
        PacedPoll::Ready(v) => (v, done),
        PacedPoll::Pending => panic!("the delay had passed"),
    }
}

#[test]
fn five_paced_pulls_take_at_least_three_hundred_ms() {
    let start = 0u64;
    let mut gen = PacedFibonacci::new();
    let mut values = Vec::new();
    let mut now = start;
    for _ in 0..5 {
        let (v, done) = pull_at(&mut gen, now);
        values.push(v.unwrap());
        now = done;
    }
    assert_eq!(values, vec![0, 1, 1, 2, 3]);
    assert!(now - start >= 100 + 4 * 50);
    assert_eq!(now, 300);
}

#[test]
fn first_pull_waits_for_initial_delay() {
    let mut gen = PacedFibonacci::new();
    assert_eq!(gen.next_delay_ms(), INITIAL_DELAY_MS);
    assert_eq!(gen.requested_at(), None);
    assert!(matches!(gen.poll(1_000), PacedPoll::Pending));
    assert!(matches!(gen.poll(1_099), PacedPoll::Pending));
    assert!(matches!(gen.poll(1_100), PacedPoll::Ready(Some(0))));
    assert_eq!(gen.requested_at(), None);
    assert_eq!(gen.next_delay_ms(), STEADY_DELAY_MS);
}

#[test]
fn late_first_pull_still_waits_full_delay() {
    // Built long before the first pull: the delay counts from the request.
    let mut gen = PacedFibonacci::new();
    assert!(matches!(gen.poll(200), PacedPoll::Pending));
    assert!(matches!(gen.poll(299), PacedPoll::Pending));
    assert!(matches!(gen.poll(300), PacedPoll::Ready(Some(0))));
}

#[test]
fn late_later_pull_still_waits_steady_delay() {
    let mut gen = PacedFibonacci::new();
    let (_, done) = pull_at(&mut gen, 0);
    assert_eq!(done, 100);
    // The consumer comes back much later: the next pull waits 50 from then.
    assert!(matches!(gen.poll(5_000), PacedPoll::Pending));
    assert!(matches!(gen.poll(5_049), PacedPoll::Pending));
    assert!(matches!(gen.poll(5_050), PacedPoll::Ready(Some(1))));
}

#[test]
fn pending_poll_consumes_nothing() {
    let mut gen = PacedFibonacci::new();
    for t in 0..100 {
        assert!(matches!(gen.poll(t), PacedPoll::Pending));
        assert_eq!(gen.requested_at(), Some(0));
    }
    assert!(matches!(gen.poll(100), PacedPoll::Ready(Some(0))));
    assert!(matches!(gen.poll(120), PacedPoll::Pending));
    assert!(matches!(gen.poll(169), PacedPoll::Pending));
    assert!(matches!(gen.poll(170), PacedPoll::Ready(Some(1))));
}

#[test]
fn pull_requested_near_clock_limit_never_completes() {
    let mut gen = PacedFibonacci::new();
    assert!(matches!(gen.poll(u64::MAX - 10), PacedPoll::Pending));
    assert!(matches!(gen.poll(u64::MAX), PacedPoll::Pending));
}

#[test]
fn earlier_clock_reading_does_not_complete_pull() {
    let mut gen = PacedFibonacci::new();
    assert!(matches!(gen.poll(500), PacedPoll::Pending));
    assert!(matches!(gen.poll(10), PacedPoll::Pending));
    assert!(matches!(gen.poll(600), PacedPoll::Ready(Some(0))));
}
