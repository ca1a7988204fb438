use request_tracing::request::begin_request;
use request_tracing::request::finish_request;
use request_tracing::request::latency_key;
use request_tracing::request::respond;
use request_tracing::request::Downstream;
use request_tracing::request::RequestSpan;
use request_tracing::request::STATUS_OK;
use request_tracing::span::SpanState;

#[test]
fn request_span_is_named_and_open() {
    let span = begin_request(42, 1_000);
    assert_eq!(span.name, "http_request");
    assert_eq!(span.id, 42);
    assert_eq!(span.parent, None);
    assert_eq!(span.root, 42);
    assert_eq!(span.start_nanos, 1_000);
    assert_eq!(span.state, SpanState::Open);
    assert!(span.fields.is_empty());
}

#[test]
fn answer_is_ok_whatever_the_downstream_call_did() {
    assert_eq!(STATUS_OK, 200);
    assert_eq!(respond(Downstream::Answered(200)), 200);
    assert_eq!(respond(Downstream::Answered(404)), 200);
    assert_eq!(respond(Downstream::Answered(503)), 200);
    assert_eq!(respond(Downstream::Failed), 200);
}

#[test]
fn finished_request_is_closed_with_its_latency() {
    let span = begin_request(1, 1_000_000_000);
    let (status, span) = finish_request(span, Downstream::Failed, 4_900_000_000);
    assert_eq!(status, 200);
    assert_eq!(span.state, SpanState::Closed);
    assert_eq!(span.end_nanos, Some(4_900_000_000));
    assert_eq!(span.field("took"), Some(3_900_000_000));
    assert_eq!(span.duration_nanos(), Some(3_900_000_000));
    assert_eq!(span.fields.len(), 1);
    assert_eq!(span.fields[0].key, "took");
    assert_eq!(span.fields[0].key, latency_key());
    assert_eq!(span.name, "http_request");
    assert_eq!(span.start_nanos, 1_000_000_000);
}

#[test]
fn latency_of_a_quarter_second_is_a_quarter_second() {
    let span = begin_request(1, 10_000_000_000);
    let (status, span) = finish_request(span, Downstream::Answered(200), 10_250_000_000);
    assert_eq!(status, 200);
    assert_eq!(span.field("took"), Some(250_000_000));
    assert_eq!(span.field("took"), span.duration_nanos());
}

#[test]
fn latency_is_the_time_from_open_to_close() {
    for (open, close) in [(0u64, 0u64), (0, 1), (5, 999_999_999), (7, u64::MAX), (123, 456_789)] {
        let (_, span) = finish_request(begin_request(1, open), Downstream::Failed, close);
        assert_eq!(span.field("took"), Some(close - open));
        assert_eq!(span.end_nanos, Some(close));
    }
}

#[test]
fn clock_that_ran_backwards_gives_zero_latency() {
    let span = begin_request(1, 10_000_000_000);
    let (status, span) = finish_request(span, Downstream::Answered(200), 1);
    assert_eq!(status, 200);
    assert_eq!(span.end_nanos, Some(10_000_000_000));
    assert_eq!(span.field("took"), Some(0));
}

#[test]
fn finishing_twice_changes_nothing() {
    let span = begin_request(1, 0);
    let (_, closed) = finish_request(span, Downstream::Answered(200), 2_000_000_000);
    let before = closed.clone();
    let (status, again) = finish_request(closed, Downstream::Failed, 9_000_000_000);
    assert_eq!(status, 200);
    assert_eq!(again, before);
    assert_eq!(again.field("took"), Some(2_000_000_000));
}

#[test]
fn request_span_is_given_up_once() {
    let mut request = RequestSpan::open(9, 1_000);
    assert!(request.is_pending());
    let child = request.child(10, "handler", 1_500).unwrap();
    assert_eq!(child.parent, Some(9));
    assert_eq!(child.root, 9);
    assert_eq!(child.name, "handler");
    let (status, closed) = request.finish(Downstream::Answered(500), 251_000);
    assert_eq!(status, 200);
    let closed = closed.unwrap();
    assert_eq!(closed.id, 9);
    assert_eq!(closed.name, "http_request");
    assert_eq!(closed.state, SpanState::Closed);
    assert_eq!(closed.start_nanos, 1_000);
    assert_eq!(closed.end_nanos, Some(251_000));
    assert_eq!(closed.field("took"), Some(250_000));
    assert!(!request.is_pending());
    let (status, again) = request.finish(Downstream::Failed, 900_000);
    assert_eq!(status, 200);
    assert_eq!(again, None);
    assert!(!request.is_pending());
    assert_eq!(request.child(11, "late", 2_000), None);
}
