//! The request handler's part in tracing: one span per request, opened when
//! the request comes in and closed once when it is answered.

use crate::span::elapsed_nanos;
use crate::span::field_value;
use crate::span::later_of;
use crate::span::next_state;
use crate::span::run;
use crate::span::nanos_between;
use crate::span::Span;
use crate::span::SpanEvent;
use crate::span::SpanState;
use vstd::prelude::*;

verus! {

/// The status that every request is answered with.
pub const STATUS_OK: u16 = 200;

/// How the call to the downstream service went.
#[derive(Clone, Copy, Debug, PartialEq, Eq, Structural)]
pub enum Downstream {
    /// The service answered, with this status.
    Answered(u16),
    /// The call failed.
    Failed,
}

/// The name of a request's span.
pub open spec fn request_span_name() -> Seq<char> {
    "http_request"@
}

/// The name of the field that holds a request's latency, in nanoseconds.
pub open spec fn latency_field() -> Seq<char> {
    "took"@
}

/// What closing the request span `span` at the instant `now` makes of it: the
/// same span, closed, with its end stamped and the latency, which is the time
/// from its start to that end in nanoseconds, recorded as its last field.
pub open spec fn closes_request(span: Span, now: u64, closed: Span) -> bool {
    let end = later_of(now, span.start_nanos);
    &&& closed.state == SpanState::Closed
    &&& closed.end_nanos == Some(end)
    &&& closed.id == span.id
    &&& closed.parent == span.parent
    &&& closed.root == span.root
    &&& closed.name == span.name
    &&& closed.start_nanos == span.start_nanos
    &&& closed.queued_nanos == span.queued_nanos
    &&& closed.fields@.len() == span.fields@.len() + 1
    &&& closed.fields@.drop_last() == span.fields@
    &&& closed.fields@.last().key@ == latency_field()
    &&& closed.fields@.last().value == end - span.start_nanos
    &&& field_value(closed.fields@, latency_field()) == Some(elapsed_nanos(span.start_nanos, end))
}

/// What ending a request makes of its span: an open span is closed with its
/// latency, any other span stays as it is.
pub open spec fn ends_request(span: Span, now: u64, after: Span) -> bool {
    if span.state == SpanState::Open {
        closes_request(span, now, after)
    } else {
        after == span
    }
}

/// How many of `events` close a span.
pub open spec fn closes(events: Seq<SpanEvent>) -> nat
    decreases events.len(),
{
    if events.len() == 0 {
        0
    } else {
        closes(events.skip(1)) + if events.first() == SpanEvent::Close {
            1nat
        } else {
            0nat
        }
    }
}

/// Whatever happens to the span of a request, it is closed exactly once if it
/// ever leaves the open state, and never otherwise: no allowed history holds a
/// second close, and none gets past the open state without one.
pub proof fn lemma_closed_exactly_once(state: SpanState, events: Seq<SpanEvent>)
    requires
        run(state, events) is Some,
    ensures
        closes(events) == if state == SpanState::Open && events.len() > 0 {
            1nat
        } else {
            0nat
        },
        state == SpanState::Open && events.len() > 0 ==> events.first() == SpanEvent::Close,
    decreases events.len(),
{
    if events.len() > 0 {
        let next = next_state(state, events.first()).unwrap();
        lemma_closed_exactly_once(next, events.skip(1));
    }
}

/// Opens the span of a request that came in at the instant `now`.
pub fn begin_request(id: u64, now: u64) -> (span: Span)
    ensures
        span.id == id,
        span.parent is None,
        span.root == id,
        span.name@ == request_span_name(),
        span.start_nanos == now,
        span.end_nanos is None,
        span.queued_nanos is None,
        span.state == SpanState::Open,
        span.fields@.len() == 0,
        span.wf(),
{
    Span::begin_span(id, "http_request", now)
}

/// The status that answers a request: the same whatever the downstream call
/// came to.
pub fn respond(outcome: Downstream) -> (status: u16)
    ensures
        status == STATUS_OK,
{
    STATUS_OK
}

/// The name of the latency field.
pub fn latency_key() -> (key: &'static str)
    ensures
        key@ == latency_field(),
{
    "took"
}

/// Ends a request at the instant `now`: records the latency under `took`, in
/// nanoseconds, closes the span and gives the status of the answer. The
/// status does not depend on the downstream call. A span that was closed
/// before comes back unchanged.
pub fn finish_request(span: Span, outcome: Downstream, now: u64) -> (done: (u16, Span))
    ensures
        done.0 == STATUS_OK,
        span.wf() ==> done.1.wf(),
        ends_request(span, now, done.1),
{
    let mut span = span;
    let status = respond(outcome);
    if span.state != SpanState::Open {
        return (status, span);
    }
    let ghost before = span.fields@;
    let end: u64 = if now >= span.start_nanos {
        now
    } else {
        span.start_nanos
    };
    let took = nanos_between(span.start_nanos, end);
    let recorded = span.record_field(latency_key(), took);
    let closed = span.end_span(end);
    proof {
        assert(recorded is Ok && closed is Ok);
        assert(span.fields@.drop_last() =~= before);
    }
    (status, span)
}

/// The span of one request in flight. It is opened with the request and
/// given up, closed, by the first `finish`; after that it holds nothing, so a
/// request's span is closed and handed on once.
pub struct RequestSpan {
    span: Option<Span>,
}

impl RequestSpan {
    /// The span that is still held, if the request has not been finished.
    pub closed spec fn held(&self) -> Option<Span> {
        self.span
    }

    /// Opens the span of a request that came in at the instant `now`.
    pub fn open(id: u64, now: u64) -> (request: RequestSpan)
        ensures
            request.held() is Some,
            request.held().unwrap().id == id,
            request.held().unwrap().parent is None,
            request.held().unwrap().root == id,
            request.held().unwrap().name@ == request_span_name(),
            request.held().unwrap().start_nanos == now,
            request.held().unwrap().state == SpanState::Open,
            request.held().unwrap().fields@.len() == 0,
            request.held().unwrap().wf(),
    {
        RequestSpan { span: Some(begin_request(id, now)) }
    }

    /// Whether the request has not been finished yet.
    pub fn is_pending(&self) -> (pending: bool)
        ensures
            pending == self.held() is Some,
    {
        self.span.is_some()
    }

    /// Opens a span for work done within the request; `None` once the request
    /// is finished.
    pub fn child(&self, id: u64, name: &str, now: u64) -> (span: Option<Span>)
        ensures
            span is Some <==> self.held() is Some,
            span is Some ==> {
                &&& span.unwrap().id == id
                &&& span.unwrap().parent == Some(self.held().unwrap().id)
                &&& span.unwrap().root == self.held().unwrap().root
                &&& span.unwrap().name@ == name@
                &&& span.unwrap().start_nanos == now
                &&& span.unwrap().state == SpanState::Open
                &&& span.unwrap().fields@.len() == 0
                &&& span.unwrap().wf()
            },
    {
        match &self.span {
            Some(held) => Some(held.begin_child(id, name, now)),
            None => None,
        }
    }

    /// Ends the request at the instant `now`. The first call gives the status
    /// and the span, closed with its latency; every later call gives the
    /// status alone and changes nothing.
    pub fn finish(&mut self, outcome: Downstream, now: u64) -> (done: (u16, Option<Span>))
        ensures
            done.0 == STATUS_OK,
            final(self).held() is None,
            done.1 is Some <==> old(self).held() is Some,
            done.1 is Some ==> ends_request(old(self).held().unwrap(), now, done.1.unwrap()),
            done.1 is Some && old(self).held().unwrap().wf() ==> done.1.unwrap().wf(),
    {
        let mut held: Option<Span> = None;
        std::mem::swap(&mut self.span, &mut held);
        match held {
            Some(span) => {
                let (status, closed) = finish_request(span, outcome, now);
                (status, Some(closed))
            },
            None => (respond(outcome), None),
        }
    }
}

} // verus!
