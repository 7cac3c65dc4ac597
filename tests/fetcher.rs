use python_async_iterator::bridge::PullOutcome;
use python_async_iterator::error::{ErrorKind, IteratorError};
use python_async_iterator::fetcher::{FetchPolicy, FetchStep, PageFetcher};

type Response = Result<Vec<String>, IteratorError>;

fn page(items: &[&str]) -> Response {
    Ok(items.iter().map(|s| s.to_string()).collect())
}

fn transport_error() -> Response {
    Err(IteratorError::new(ErrorKind::Transport, "connection refused".to_string()))
}

fn value_of(o: Option<PullOutcome<String>>) -> String {
    match o {
        Some(PullOutcome::Value(v)) => v,
        _ => panic!("expected a value"),
    }
}

#[test]
fn fail_open_scenario_continues_after_failure() {
    let mut f = PageFetcher::new(FetchPolicy::FailOpen);
    let mut queue = vec![page(&["a", "b"]), transport_error(), page(&["c"])];
    assert_eq!(value_of(f.serve(&mut queue)), "a");
    assert_eq!(value_of(f.serve(&mut queue)), "b");
    match f.serve(&mut queue) {
        Some(PullOutcome::Failure(e)) => assert_eq!(e.kind(), ErrorKind::Transport),
        _ => panic!("expected a failure"),
    }
    assert!(!f.is_poisoned());
    assert_eq!(value_of(f.serve(&mut queue)), "c");
    assert!(queue.is_empty());
    // The page loop goes on: the next pull asks for another page.
    assert!(f.serve(&mut queue).is_none());
    assert!(matches!(f.pull(), FetchStep::Request));
}

#[test]
fn fail_closed_poisons_after_one_failure() {
    let mut f = PageFetcher::new(FetchPolicy::FailClosed);
    let mut queue = vec![transport_error(), page(&["a"]), page(&["b"])];
    match f.serve(&mut queue) {
        Some(PullOutcome::Failure(e)) => assert_eq!(e.message(), "connection refused"),
        _ => panic!("expected a failure"),
    }
    assert!(f.is_poisoned());
    for _ in 0..5 {
        assert!(matches!(f.serve(&mut queue), Some(PullOutcome::EndOfSequence)));
    }
    assert_eq!(queue.len(), 2);
    assert!(matches!(f.receive(page(&["x"])), FetchStep::Emit(PullOutcome::EndOfSequence)));
    assert!(matches!(f.pull(), FetchStep::Emit(PullOutcome::EndOfSequence)));
}

#[test]
fn page_is_drained_before_next_request() {
    let mut f = PageFetcher::new(FetchPolicy::FailOpen);
    assert!(matches!(f.pull(), FetchStep::Request));
    match f.receive(page(&["u1", "u2", "u3", "u4"])) {
        FetchStep::Emit(PullOutcome::Value(v)) => assert_eq!(v, "u1"),
        _ => panic!("expected the first item"),
    }
    assert_eq!(f.pending_len(), 3);
    for want in ["u2", "u3", "u4"] {
        match f.pull() {
            FetchStep::Emit(PullOutcome::Value(v)) => assert_eq!(v, want),
            _ => panic!("expected an item"),
        }
    }
    assert!(matches!(f.pull(), FetchStep::Request));
}

#[test]
fn serve_takes_one_response_per_page() {
    let mut f = PageFetcher::new(FetchPolicy::FailOpen);
    let mut queue = vec![page(&["a", "b", "c"]), page(&["d"])];
    assert_eq!(value_of(f.serve(&mut queue)), "a");
    assert_eq!(queue.len(), 1);
    assert_eq!(value_of(f.serve(&mut queue)), "b");
    assert_eq!(value_of(f.serve(&mut queue)), "c");
    assert_eq!(queue.len(), 1);
    assert_eq!(value_of(f.serve(&mut queue)), "d");
    assert!(queue.is_empty());
}

#[test]
fn empty_page_leads_to_another_request() {
    let mut f = PageFetcher::new(FetchPolicy::FailClosed);
    assert!(matches!(f.receive(page(&[])), FetchStep::Request));
    let mut queue = vec![page(&[]), page(&[]), page(&["z"])];
    assert_eq!(value_of(f.serve(&mut queue)), "z");
    assert!(queue.is_empty());
}

#[test]
fn serve_without_responses_waits() {
    let mut f = PageFetcher::new(FetchPolicy::FailOpen);
    let mut queue: Vec<Response> = Vec::new();
    assert!(f.serve(&mut queue).is_none());
    assert_eq!(f.policy(), FetchPolicy::FailOpen);
    assert_eq!(f.pending_len(), 0);
}

#[test]
fn decode_error_is_reported_like_transport_error() {
    let mut f = PageFetcher::new(FetchPolicy::FailOpen);
    let mut queue = vec![
        Err(IteratorError::new(ErrorKind::Decode, "expected a list".to_string())),
        page(&["ok"]),
    ];
    match f.serve(&mut queue) {
        Some(PullOutcome::Failure(e)) => assert_eq!(e.kind(), ErrorKind::Decode),
        _ => panic!("expected a failure"),
    }
    assert_eq!(value_of(f.serve(&mut queue)), "ok");
}

#[test]
fn fail_open_outcomes_follow_responses_in_order() {
    let mut f = PageFetcher::new(FetchPolicy::FailOpen);
    let mut queue = vec![
        transport_error(),
        page(&["a"]),
        page(&[]),
        transport_error(),
        transport_error(),
        page(&["b", "c"]),
    ];
    let mut got = Vec::new();
    for _ in 0..6 {
        match f.serve(&mut queue) {
            Some(PullOutcome::Value(v)) => got.push(v),
            Some(PullOutcome::Failure(_)) => got.push("!".to_string()),
            _ => panic!("expected a value or a failure"),
        }
    }
    assert_eq!(got, vec!["!", "a", "!", "!", "b", "c"]);
    assert!(queue.is_empty());
    assert!(!f.is_poisoned());
    assert_eq!(f.pending_len(), 0);
}
