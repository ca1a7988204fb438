//! Spans: named intervals with a life cycle and recorded fields.

use vstd::prelude::*;

verus! {

/// Where a span stands in its life.
#[derive(Clone, Copy, Debug, PartialEq, Eq, Structural)]
pub enum SpanState {
    Open,
    Closed,
    Queued,
    Exported,
    ExportFailed,
}

/// What can happen to a span.
#[derive(Clone, Copy, Debug, PartialEq, Eq, Structural)]
pub enum SpanEvent {
    Close,
    Enqueue,
    Delivered,
    DeliveryFailed,
}

/// Why an operation on a span was refused.
#[derive(Clone, Copy, Debug, PartialEq, Eq, Structural)]
pub enum SpanError {
    /// The span was closed before; it takes no more fields and no second close.
    NotOpen,
}

/// One recorded field of a span.
#[derive(Clone, Debug, PartialEq, Eq)]
pub struct Field {
    pub key: String,
    pub value: u64,
}

/// A named interval of work within one request.
#[derive(Clone, Debug, PartialEq, Eq)]
pub struct Span {
    pub id: u64,
    /// The span that this one is nested in, if any.
    pub parent: Option<u64>,
    /// The span at the root of the trace: the span itself where it has no
    /// parent.
    pub root: u64,
    pub name: String,
    pub start_nanos: u64,
    pub end_nanos: Option<u64>,
    pub queued_nanos: Option<u64>,
    pub state: SpanState,
    pub fields: Vec<Field>,
}

/// The life cycle: the state that follows `state` on `event`, if the event is
/// allowed there.
pub open spec fn next_state(state: SpanState, event: SpanEvent) -> Option<SpanState> {
    match (state, event) {
        (SpanState::Open, SpanEvent::Close) => Some(SpanState::Closed),
        (SpanState::Closed, SpanEvent::Enqueue) => Some(SpanState::Queued),
        (SpanState::Queued, SpanEvent::Delivered) => Some(SpanState::Exported),
        (SpanState::Queued, SpanEvent::DeliveryFailed) => Some(SpanState::ExportFailed),
        _ => None,
    }
}

/// A state that no event leads out of.
pub open spec fn is_terminal(state: SpanState) -> bool {
    state == SpanState::Exported || state == SpanState::ExportFailed
}

/// How far a state is from `Open`, counted in events.
pub open spec fn rank(state: SpanState) -> nat {
    match state {
        SpanState::Open => 0,
        SpanState::Closed => 1,
        SpanState::Queued => 2,
        SpanState::Exported => 3,
        SpanState::ExportFailed => 3,
    }
}

/// The states reached from `state` by the events of `events`, in order;
/// `None` as soon as one of them is not allowed.
pub open spec fn run(state: SpanState, events: Seq<SpanEvent>) -> Option<SpanState>
    decreases events.len(),
{
    if events.len() == 0 {
        Some(state)
    } else {
        match next_state(state, events.first()) {
            Some(next) => run(next, events.skip(1)),
            None => None,
        }
    }
}

/// The time from `start` to `end` in nanoseconds, the unit of both; zero where
/// `end` lies before `start`.
pub open spec fn elapsed_nanos(start: u64, end: u64) -> u64 {
    if end >= start {
        (end - start) as u64
    } else {
        0
    }
}

/// The value last recorded under `key`, if any.
pub open spec fn field_value(fields: Seq<Field>, key: Seq<char>) -> Option<u64>
    decreases fields.len(),
{
    if fields.len() == 0 {
        None
    } else if fields.last().key@ == key {
        Some(fields.last().value)
    } else {
        field_value(fields.drop_last(), key)
    }
}

/// The later of two instants.
pub open spec fn later_of(a: u64, b: u64) -> u64 {
    if a >= b {
        a
    } else {
        b
    }
}

/// Every allowed event moves a span strictly forward, so no sequence of events
/// leads from a closed span back to an open one, and a terminal state allows
/// no event at all.
pub proof fn lemma_life_cycle_moves_forward(state: SpanState, event: SpanEvent)
    ensures
        next_state(state, event) is Some ==> rank(next_state(state, event).unwrap()) == rank(state)
            + 1,
        is_terminal(state) ==> next_state(state, event) is None,
        next_state(state, event) != Some(SpanState::Open),
{
}

/// A run of events never ends in a state that lies before the one it began in:
/// once closed, a span is never open again, and it is closed at most once.
pub proof fn lemma_run_never_reopens(state: SpanState, events: Seq<SpanEvent>)
    ensures
        run(state, events) is Some ==> rank(run(state, events).unwrap()) == rank(state)
            + events.len(),
        events.len() > 0 ==> run(state, events) != Some(SpanState::Open),
    decreases events.len(),
{
    if events.len() > 0 {
        match next_state(state, events.first()) {
            Some(next) => {
                lemma_run_never_reopens(next, events.skip(1));
            },
            None => {},
        }
    }
}

/// The state after `event`, or `None` where the life cycle does not allow it.
pub fn advance(state: SpanState, event: SpanEvent) -> (next: Option<SpanState>)
    ensures
        next == next_state(state, event),
{
    match (state, event) {
        (SpanState::Open, SpanEvent::Close) => Some(SpanState::Closed),
        (SpanState::Closed, SpanEvent::Enqueue) => Some(SpanState::Queued),
        (SpanState::Queued, SpanEvent::Delivered) => Some(SpanState::Exported),
        (SpanState::Queued, SpanEvent::DeliveryFailed) => Some(SpanState::ExportFailed),
        _ => None,
    }
}

/// The time between two instants, in nanoseconds as they are.
pub fn nanos_between(start: u64, end: u64) -> (nanos: u64)
    ensures
        nanos == elapsed_nanos(start, end),
{
    if end >= start {
        end - start
    } else {
        0
    }
}

impl Span {
    /// The invariant of a span: it has an end exactly when it is no longer
    /// open, the end is not before the start, and only a span that reached
    /// the queue has an instant at which it was queued.
    pub open spec fn wf(&self) -> bool {
        &&& self.state == SpanState::Open <==> self.end_nanos is None
        &&& self.end_nanos is Some ==> self.end_nanos.unwrap() >= self.start_nanos
        &&& self.queued_nanos is Some <==> rank(self.state) >= 2
    }

    /// Opens a root span called `name` at the instant `now`.
    pub fn begin_span(id: u64, name: &str, now: u64) -> (span: Span)
        ensures
            span.id == id,
            span.parent is None,
            span.root == id,
            span.name@ == name@,
            span.start_nanos == now,
            span.end_nanos is None,
            span.queued_nanos is None,
            span.state == SpanState::Open,
            span.fields@.len() == 0,
            span.wf(),
    {
        Span {
            id,
            parent: None,
            root: id,
            name: name.to_owned(),
            start_nanos: now,
            end_nanos: None,
            queued_nanos: None,
            state: SpanState::Open,
            fields: Vec::new(),
        }
    }

    /// Opens a span for work nested in `self`: its parent is `self`, and it
    /// belongs to the trace of `self`.
    pub fn begin_child(&self, id: u64, name: &str, now: u64) -> (span: Span)
        ensures
            span.id == id,
            span.parent == Some(self.id),
            span.root == self.root,
            span.name@ == name@,
            span.start_nanos == now,
            span.end_nanos is None,
            span.queued_nanos is None,
            span.state == SpanState::Open,
            span.fields@.len() == 0,
            span.wf(),
    {
        Span {
            id,
            parent: Some(self.id),
            root: self.root,
            name: name.to_owned(),
            start_nanos: now,
            end_nanos: None,
            queued_nanos: None,
            state: SpanState::Open,
            fields: Vec::new(),
        }
    }

    /// Records `value` under `key`. Allowed only while the span is open; a
    /// closed span is left as it was.
    pub fn record_field(&mut self, key: &str, value: u64) -> (done: Result<(), SpanError>)
        ensures
            old(self).wf() ==> final(self).wf(),
            done is Ok <==> old(self).state == SpanState::Open,
            done is Err ==> *final(self) == *old(self) && done == Err::<(), SpanError>(
                SpanError::NotOpen,
            ),
            done is Ok ==> {
                &&& final(self).fields@ == old(self).fields@.push(final(self).fields@.last())
                &&& final(self).fields@.last().key@ == key@
                &&& final(self).fields@.last().value == value
                &&& final(self).id == old(self).id
                &&& final(self).parent == old(self).parent
                &&& final(self).root == old(self).root
                &&& final(self).name == old(self).name
                &&& final(self).start_nanos == old(self).start_nanos
                &&& final(self).end_nanos == old(self).end_nanos
                &&& final(self).queued_nanos == old(self).queued_nanos
                &&& final(self).state == old(self).state
                &&& forall|k: Seq<char>|
                    field_value(final(self).fields@, k) == if k == key@ {
                        Some(value)
                    } else {
                        field_value(old(self).fields@, k)
                    }
            },
    {
        if self.state != SpanState::Open {
            return Err(SpanError::NotOpen);
        }
        let ghost before = self.fields@;
        self.fields.push(Field { key: key.to_owned(), value });
        proof {
            assert(self.fields@.drop_last() =~= before);
        }
        Ok(())
    }

    /// Closes the span at the instant `now`. The end is never stamped before
    /// the start. A span is closed once: a second close is refused and changes
    /// nothing.
    pub fn end_span(&mut self, now: u64) -> (done: Result<(), SpanError>)
        ensures
            old(self).wf() ==> final(self).wf(),
            done is Ok <==> old(self).state == SpanState::Open,
            done is Err ==> *final(self) == *old(self) && done == Err::<(), SpanError>(
                SpanError::NotOpen,
            ),
            done is Ok ==> *final(self) == (Span {
                end_nanos: Some(later_of(now, old(self).start_nanos)),
                state: SpanState::Closed,
                ..*old(self)
            }),
            done is Ok ==> Some(final(self).state) == next_state(
                old(self).state,
                SpanEvent::Close,
            ),
    {
        if self.state != SpanState::Open {
            return Err(SpanError::NotOpen);
        }
        let end: u64 = if now >= self.start_nanos {
            now
        } else {
            self.start_nanos
        };
        self.end_nanos = Some(end);
        self.state = SpanState::Closed;
        Ok(())
    }

    /// The value last recorded under `key`.
    pub fn field(&self, key: &str) -> (found: Option<u64>)
        ensures
            found == field_value(self.fields@, key@),
    {
        let wanted = key.to_owned();
        let mut i: usize = self.fields.len();
        proof {
            assert(self.fields@.take(i as int) =~= self.fields@);
        }
        while i > 0
            invariant
                i <= self.fields@.len(),
                wanted@ == key@,
                field_value(self.fields@, key@) == field_value(
                    self.fields@.take(i as int),
                    key@,
                ),
            decreases i,
        {
            proof {
                assert(self.fields@.take(i as int).drop_last() =~= self.fields@.take(i - 1));
            }
            if self.fields[i - 1].key == wanted {
                return Some(self.fields[i - 1].value);
            }
            i -= 1;
        }
        None
    }

    /// How long the span lasted, in nanoseconds; `None` while it has no end.
    pub fn duration_nanos(&self) -> (nanos: Option<u64>)
        ensures
            nanos == match self.end_nanos {
                Some(end) => Some(elapsed_nanos(self.start_nanos, end)),
                None => None,
            },
    {
        match self.end_nanos {
            Some(end) => Some(nanos_between(self.start_nanos, end)),
            None => None,
        }
    }

    /// Marks a queued span with the outcome of its export.
    pub fn settle(&mut self, delivered: bool) -> (done: bool)
        ensures
            old(self).wf() ==> final(self).wf(),
            done <==> old(self).state == SpanState::Queued,
            !done ==> *final(self) == *old(self),
            done ==> *final(self) == (Span {
                state: if delivered {
                    SpanState::Exported
                } else {
                    SpanState::ExportFailed
                },
                ..*old(self)
            }),
            done ==> Some(final(self).state) == next_state(
                old(self).state,
                if delivered {
                    SpanEvent::Delivered
                } else {
                    SpanEvent::DeliveryFailed
                },
            ),
    {
        if self.state != SpanState::Queued {
            return false;
        }
        self.state = if delivered {
            SpanState::Exported
        } else {
            SpanState::ExportFailed
        };
        true
    }
}

} // verus!
