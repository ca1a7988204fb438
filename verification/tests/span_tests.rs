use request_tracing::span::advance;
use request_tracing::span::nanos_between;
use request_tracing::span::Span;
use request_tracing::span::SpanError;
use request_tracing::span::SpanEvent;
use request_tracing::span::SpanState;

const ALL_STATES: [SpanState; 5] = [
    SpanState::Open,
    SpanState::Closed,
    SpanState::Queued,
    SpanState::Exported,
    SpanState::ExportFailed,
];

const ALL_EVENTS: [SpanEvent; 4] = [
    SpanEvent::Close,
    SpanEvent::Enqueue,
    SpanEvent::Delivered,
    SpanEvent::DeliveryFailed,
];

#[test]
fn begin_span_is_open_and_empty() {
    let span = Span::begin_span(7, "work", 1_000);
    assert_eq!(span.id, 7);
    assert_eq!(span.parent, None);
    assert_eq!(span.root, 7);
    assert_eq!(span.name, "work");
    assert_eq!(span.start_nanos, 1_000);
    assert_eq!(span.end_nanos, None);
    assert_eq!(span.queued_nanos, None);
    assert_eq!(span.state, SpanState::Open);
    assert!(span.fields.is_empty());
    assert_eq!(span.duration_nanos(), None);
}

#[test]
fn child_span_points_at_its_parent() {
    let parent = Span::begin_span(1, "http_request", 10);
    let child = parent.begin_child(2, "handler", 20);
    assert_eq!(child.parent, Some(1));
    assert_eq!(child.root, 1);
    let grandchild = child.begin_child(3, "call", 30);
    assert_eq!(grandchild.parent, Some(2));
    assert_eq!(grandchild.root, 1);
    assert_eq!(child.id, 2);
    assert_eq!(child.name, "handler");
    assert_eq!(child.start_nanos, 20);
    assert_eq!(child.state, SpanState::Open);
}

#[test]
fn recorded_field_is_read_back() {
    let mut span = Span::begin_span(1, "work", 0);
    assert_eq!(span.field("took"), None);
    assert_eq!(span.record_field("took", 3), Ok(()));
    assert_eq!(span.field("took"), Some(3));
    assert_eq!(span.field("other"), None);
    assert_eq!(span.fields.len(), 1);
}

#[test]
fn last_recorded_value_counts() {
    let mut span = Span::begin_span(1, "work", 0);
    assert_eq!(span.record_field("took", 3), Ok(()));
    assert_eq!(span.record_field("size", 9), Ok(()));
    assert_eq!(span.record_field("took", 5), Ok(()));
    assert_eq!(span.field("took"), Some(5));
    assert_eq!(span.field("size"), Some(9));
}

#[test]
fn closed_span_takes_no_field() {
    let mut span = Span::begin_span(1, "work", 0);
    assert_eq!(span.end_span(10), Ok(()));
    let before = span.clone();
    assert_eq!(span.record_field("took", 3), Err(SpanError::NotOpen));
    assert_eq!(span, before);
}

#[test]
fn span_is_closed_once() {
    let mut span = Span::begin_span(1, "work", 100);
    assert_eq!(span.end_span(2_000_000_100), Ok(()));
    assert_eq!(span.state, SpanState::Closed);
    assert_eq!(span.end_nanos, Some(2_000_000_100));
    assert_eq!(span.duration_nanos(), Some(2_000_000_000));
    let before = span.clone();
    assert_eq!(span.end_span(9_000_000_000), Err(SpanError::NotOpen));
    assert_eq!(span, before);
}

#[test]
fn end_is_never_before_start() {
    let mut span = Span::begin_span(1, "work", 500);
    assert_eq!(span.end_span(100), Ok(()));
    assert_eq!(span.end_nanos, Some(500));
    assert_eq!(span.duration_nanos(), Some(0));
}

#[test]
fn time_between_two_instants_is_kept_to_the_nanosecond() {
    assert_eq!(nanos_between(0, 0), 0);
    assert_eq!(nanos_between(0, 1), 1);
    assert_eq!(nanos_between(10_000_000_000, 10_250_000_000), 250_000_000);
    assert_eq!(nanos_between(500, 2_000_000_499), 1_999_999_999);
    assert_eq!(nanos_between(0, u64::MAX), u64::MAX);
    assert_eq!(nanos_between(10, 5), 0);
}

#[test]
fn life_cycle_allows_only_forward_steps() {
    for state in ALL_STATES {
        for event in ALL_EVENTS {
            let expected = match (state, event) {
                (SpanState::Open, SpanEvent::Close) => Some(SpanState::Closed),
                (SpanState::Closed, SpanEvent::Enqueue) => Some(SpanState::Queued),
                (SpanState::Queued, SpanEvent::Delivered) => Some(SpanState::Exported),
                (SpanState::Queued, SpanEvent::DeliveryFailed) => Some(SpanState::ExportFailed),
                _ => None,
            };
            assert_eq!(advance(state, event), expected);
            assert_ne!(advance(state, event), Some(SpanState::Open));
        }
    }
}

#[test]
fn terminal_states_allow_no_event() {
    for event in ALL_EVENTS {
        assert_eq!(advance(SpanState::Exported, event), None);
        assert_eq!(advance(SpanState::ExportFailed, event), None);
    }
}

#[test]
fn settle_marks_queued_spans_only() {
    let mut span = Span::begin_span(1, "work", 0);
    assert!(!span.settle(true));
    assert_eq!(span.state, SpanState::Open);
    span.state = SpanState::Queued;
    let mut failed = span.clone();
    assert!(span.settle(true));
    assert_eq!(span.state, SpanState::Exported);
    assert!(failed.settle(false));
    assert_eq!(failed.state, SpanState::ExportFailed);
    assert!(!span.settle(false));
    assert_eq!(span.state, SpanState::Exported);
}
