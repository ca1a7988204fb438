//! The export pipeline's decisions: which closed spans are queued, which are
//! shed, and when the queue gives up a batch. The pipeline sends nothing
//! itself: whoever runs it transmits each batch and reports how that went.

use crate::span::next_state;
use crate::span::Span;
use crate::span::SpanEvent;
use crate::span::SpanState;
use vstd::prelude::*;

verus! {

/// How the pipeline batches and where the batches go.
#[derive(Clone, Debug, PartialEq, Eq)]
pub struct ExporterConfig {
    /// Address of the collector.
    pub endpoint: String,
    /// Most spans that wait at one time.
    pub max_queue_size: usize,
    /// Most spans in one batch.
    pub max_batch_size: usize,
    /// Longest wait of a queued span before its batch is due, in nanoseconds.
    pub scheduled_delay_nanos: u64,
    /// Longest time that the flush at shutdown may take, in nanoseconds.
    pub shutdown_timeout_nanos: u64,
}

/// What became of a span that was handed to the pipeline.
#[derive(Clone, Copy, Debug, PartialEq, Eq, Structural)]
pub enum RecordOutcome {
    /// The span waits in the queue.
    Queued,
    /// The queue was full: the span was shed and counted.
    DroppedQueueFull,
    /// The pipeline was shut down before: the span was shed and counted.
    DroppedShutDown,
    /// The span was not closed; the pipeline takes closed spans only.
    RejectedNotClosed,
}

/// The pipeline as contracts see it.
pub struct PipelineView {
    pub config: ExporterConfig,
    pub queue: Seq<Span>,
    pub shut_down: bool,
    /// How many spans the queue has taken since the pipeline was built.
    pub accepted: nat,
    /// How many spans have left the queue in batches.
    pub released: nat,
    pub dropped: u64,
    pub exported: u64,
    pub failed: u64,
    /// What `exported` stood at when the pipeline was shut down.
    pub exported_at_shutdown: u64,
    /// What `failed` stood at when the pipeline was shut down.
    pub failed_at_shutdown: u64,
}

/// Buffers closed spans and groups them into batches.
pub struct Pipeline {
    config: ExporterConfig,
    queue: Vec<Span>,
    shut_down: bool,
    accepted: Ghost<nat>,
    released: Ghost<nat>,
    dropped: u64,
    exported: u64,
    failed: u64,
    exported_at_shutdown: u64,
    failed_at_shutdown: u64,
}

/// The smaller of two lengths.
pub open spec fn at_most(len: nat, max: nat) -> nat {
    if len < max {
        len
    } else {
        max
    }
}

/// `count` more on a counter that stops at the largest value it can hold.
pub open spec fn counted(counter: u64, count: nat) -> u64 {
    if counter + count <= u64::MAX {
        (counter + count) as u64
    } else {
        u64::MAX
    }
}

/// How long a queued span has waited at the instant `now`, in nanoseconds.
pub open spec fn waited(span: Span, now: u64) -> nat {
    match span.queued_nanos {
        Some(since) if now >= since => (now - since) as nat,
        _ => 0,
    }
}

/// A batch is due when the queue holds a full batch, or when its oldest span
/// has waited for the scheduled delay.
pub open spec fn batch_due(queue: Seq<Span>, config: ExporterConfig, now: u64) -> bool {
    queue.len() >= config.max_batch_size || (queue.len() > 0 && waited(queue[0], now)
        >= config.scheduled_delay_nanos)
}

/// How long until a batch is due; `None` where nothing waits.
pub open spec fn time_to_wait(queue: Seq<Span>, config: ExporterConfig, now: u64) -> Option<u64> {
    if queue.len() == 0 {
        None
    } else if batch_due(queue, config, now) {
        Some(0)
    } else {
        Some((config.scheduled_delay_nanos - waited(queue[0], now)) as u64)
    }
}

/// What is left of `timeout` at the instant `now`, counted from `began`;
/// `None` once nothing is left.
pub open spec fn time_left(timeout: u64, began: u64, now: u64) -> Option<u64> {
    let used = if now >= began {
        now - began
    } else {
        0
    };
    if used >= timeout {
        None
    } else {
        Some((timeout - used) as u64)
    }
}

/// How far `counter` has moved on from `base`.
pub open spec fn since(counter: u64, base: u64) -> u64 {
    if counter >= base {
        (counter - base) as u64
    } else {
        0
    }
}

/// The pipeline after it took note of a batch of `n` spans: they count as
/// exported where the batch was delivered, as failed where it was not.
pub open spec fn settled(view: PipelineView, n: nat, delivered: bool) -> PipelineView {
    if delivered {
        PipelineView { exported: counted(view.exported, n), ..view }
    } else {
        PipelineView { failed: counted(view.failed, n), ..view }
    }
}

/// The pipeline after it took note of each of `batches` in turn, the batch at
/// a place with the outcome at that place.
pub open spec fn settled_all(
    view: PipelineView,
    batches: Seq<Seq<Span>>,
    delivered: Seq<bool>,
) -> PipelineView
    decreases batches.len(),
{
    if batches.len() == 0 || delivered.len() == 0 {
        view
    } else {
        settled_all(
            settled(view, batches.first().len(), delivered.first()),
            batches.drop_first(),
            delivered.drop_first(),
        )
    }
}

/// How many spans the batches with the outcome `outcome` hold together.
pub open spec fn spans_with(batches: Seq<Seq<Span>>, delivered: Seq<bool>, outcome: bool) -> nat
    decreases batches.len(),
{
    if batches.len() == 0 || delivered.len() == 0 {
        0
    } else {
        spans_with(batches.drop_first(), delivered.drop_first(), outcome) + if delivered.first()
            == outcome {
            batches.first().len()
        } else {
            0nat
        }
    }
}

/// The pipeline as a shutdown leaves it: nothing waits, everything that was
/// taken has left, and the two counters of outcomes are noted as they stand,
/// unless an earlier shutdown noted them.
pub open spec fn shut(view: PipelineView) -> PipelineView {
    PipelineView {
        queue: Seq::empty(),
        shut_down: true,
        released: view.accepted,
        exported_at_shutdown: if view.shut_down {
            view.exported_at_shutdown
        } else {
            view.exported
        },
        failed_at_shutdown: if view.shut_down {
            view.failed_at_shutdown
        } else {
            view.failed
        },
        ..view
    }
}

/// Every span of a batch that is settled is counted once, as exported or as
/// failed, and never as both. It holds as long as the counters have room.
pub proof fn lemma_settled_all_counts(
    view: PipelineView,
    batches: Seq<Seq<Span>>,
    delivered: Seq<bool>,
)
    requires
        batches.len() == delivered.len(),
        view.exported + batches.flatten().len() <= u64::MAX,
        view.failed + batches.flatten().len() <= u64::MAX,
    ensures
        settled_all(view, batches, delivered) == (PipelineView {
            exported: (view.exported + spans_with(batches, delivered, true)) as u64,
            failed: (view.failed + spans_with(batches, delivered, false)) as u64,
            ..view
        }),
        spans_with(batches, delivered, true) + spans_with(batches, delivered, false)
            == batches.flatten().len(),
    decreases batches.len(),
{
    if batches.len() > 0 {
        let next = settled(view, batches.first().len(), delivered.first());
        assert(batches.flatten() == batches.first() + batches.drop_first().flatten());
        lemma_settled_all_counts(next, batches.drop_first(), delivered.drop_first());
    }
}

/// Shutdown loses count of nothing: once each batch that the shutdown gave
/// out is settled, delivered or not, the spans flushed and the spans lost
/// since the shutdown are together the spans that were queued when it began,
/// and no span is among both. It holds as long as the counters have room.
pub proof fn lemma_shutdown_accounts_for_every_span(before: PipelineView, delivered: Seq<bool>)
    requires
        before.wf(),
        !before.shut_down,
        delivered.len() == chunks(before.queue, before.config.max_batch_size as nat).len(),
        before.exported + before.queue.len() <= u64::MAX,
        before.failed + before.queue.len() <= u64::MAX,
    ensures
        ({
            let batches = chunks(before.queue, before.config.max_batch_size as nat);
            let after = settled_all(shut(before), batches, delivered);
            &&& since(after.exported, after.exported_at_shutdown) == spans_with(
                batches,
                delivered,
                true,
            )
            &&& since(after.failed, after.failed_at_shutdown) == spans_with(
                batches,
                delivered,
                false,
            )
            &&& since(after.exported, after.exported_at_shutdown) + since(
                after.failed,
                after.failed_at_shutdown,
            ) == before.queue.len()
            &&& after.queue.len() == 0
            &&& after.dropped == before.dropped
            &&& after.wf()
        }),
{
    let batches = chunks(before.queue, before.config.max_batch_size as nat);
    lemma_chunks_cover(before.queue, before.config.max_batch_size as nat);
    lemma_settled_all_counts(shut(before), batches, delivered);
}

/// A span as it stands in the queue: the span that was handed in, marked as
/// queued at the instant `now`.
pub open spec fn enqueued(span: Span, now: u64) -> Span {
    Span { state: SpanState::Queued, queued_nanos: Some(now), ..span }
}

/// A closed span that is put in the queue keeps its invariant, and the step is
/// one that the life cycle allows.
pub proof fn lemma_enqueued_is_allowed(span: Span, now: u64)
    requires
        span.wf(),
        span.state == SpanState::Closed,
    ensures
        enqueued(span, now).wf(),
        Some(enqueued(span, now).state) == next_state(span.state, SpanEvent::Enqueue),
{
}

/// The queue cut into batches from the front: each of `max` spans, the last of
/// what is left.
pub open spec fn chunks(queue: Seq<Span>, max: nat) -> Seq<Seq<Span>>
    decreases queue.len(),
{
    if queue.len() == 0 || max == 0 {
        Seq::empty()
    } else {
        let n = at_most(queue.len(), max) as int;
        seq![queue.take(n)] + chunks(queue.skip(n), max)
    }
}

/// What each batch holds.
pub open spec fn batch_views(batches: Seq<Vec<Span>>) -> Seq<Seq<Span>> {
    batches.map_values(|b: Vec<Span>| b@)
}

/// Spans that arrive faster than the delay leave in full batches and one last
/// batch of the rest: `n` spans make the quotient of `n` by the batch size,
/// rounded up, and no batch is empty or over the size.
pub proof fn lemma_chunk_count(queue: Seq<Span>, max: nat)
    requires
        max > 0,
    ensures
        chunks(queue, max).len() == (queue.len() + max - 1) / (max as int),
        forall|i: int|
            0 <= i < chunks(queue, max).len() ==> 0 < (#[trigger] chunks(queue, max)[i]).len()
                <= max,
        forall|i: int|
            0 <= i < chunks(queue, max).len() - 1 ==> (#[trigger] chunks(queue, max)[i]).len()
                == max,
    decreases queue.len(),
{
    let len = queue.len() as int;
    let m = max as int;
    if len == 0 {
        assert((len + m - 1) / m == 0) by (nonlinear_arith)
            requires
                len == 0,
                m > 0,
        ;
    } else {
        let n = at_most(queue.len(), max) as int;
        let rest = queue.skip(n);
        lemma_chunk_count(rest, max);
        let tail = chunks(rest, max);
        assert(chunks(queue, max) =~= seq![queue.take(n)] + tail);
        if len <= m {
            assert(rest.len() == 0);
            assert((len + m - 1) / m == 1) by (nonlinear_arith)
                requires
                    0 < len <= m,
            ;
        } else {
            assert((len + m - 1) / m == (len - m + m - 1) / m + 1) by (nonlinear_arith)
                requires
                    len > m,
                    m > 0,
            ;
            assert(tail.len() > 0) by (nonlinear_arith)
                requires
                    tail.len() == (len - m + m - 1) / m,
                    len > m,
                    m > 0,
            ;
        }
        assert forall|i: int| 0 <= i < chunks(queue, max).len() implies 0 < (#[trigger] chunks(
            queue,
            max,
        )[i]).len() <= max by {
            if i > 0 {
                assert(chunks(queue, max)[i] == tail[i - 1]);
            }
        }
        assert forall|i: int| 0 <= i < chunks(queue, max).len() - 1 implies (#[trigger] chunks(
            queue,
            max,
        )[i]).len() == max by {
            if i > 0 {
                assert(chunks(queue, max)[i] == tail[i - 1]);
            }
        }
    }
}

/// The batches, one after the other, are the queue: no span is lost, none
/// comes twice, and the order stays.
pub proof fn lemma_chunks_cover(queue: Seq<Span>, max: nat)
    requires
        max > 0,
    ensures
        chunks(queue, max).flatten() == queue,
    decreases queue.len(),
{
    if queue.len() == 0 {
        assert(chunks(queue, max).flatten() =~= queue);
    } else {
        let n = at_most(queue.len(), max) as int;
        let head = seq![queue.take(n)];
        let tail = chunks(queue.skip(n), max);
        lemma_chunks_cover(queue.skip(n), max);
        vstd::seq_lib::lemma_flatten_concat(head, tail);
        head.lemma_flatten_one_element();
        assert(head.flatten() == queue.take(n));
        assert(queue.take(n) + queue.skip(n) =~= queue);
    }
}

impl ExporterConfig {
    /// A configuration that a pipeline can be built on: a batch holds at least
    /// one span and no more than the queue.
    pub open spec fn valid(&self) -> bool {
        1 <= self.max_batch_size <= self.max_queue_size
    }

    /// Whether a pipeline can be built on this configuration.
    pub fn is_valid(&self) -> (ok: bool)
        ensures
            ok == self.valid(),
    {
        1 <= self.max_batch_size && self.max_batch_size <= self.max_queue_size
    }

    /// The usual configuration: a collector on this machine, a queue of 2048
    /// spans, batches of 512, a delay of five seconds and thirty seconds for
    /// the flush at shutdown.
    pub fn standard() -> (config: ExporterConfig)
        ensures
            config.valid(),
            config.endpoint@ == "http://localhost:4317"@,
            config.max_queue_size == 2048,
            config.max_batch_size == 512,
            config.scheduled_delay_nanos == 5_000_000_000,
            config.shutdown_timeout_nanos == 30_000_000_000,
    {
        ExporterConfig {
            endpoint: "http://localhost:4317".to_owned(),
            max_queue_size: 2048,
            max_batch_size: 512,
            scheduled_delay_nanos: 5_000_000_000,
            shutdown_timeout_nanos: 30_000_000_000,
        }
    }
}

impl View for Pipeline {
    type V = PipelineView;

    closed spec fn view(&self) -> PipelineView {
        PipelineView {
            config: self.config,
            queue: self.queue@,
            shut_down: self.shut_down,
            accepted: self.accepted@,
            released: self.released@,
            dropped: self.dropped,
            exported: self.exported,
            failed: self.failed,
            exported_at_shutdown: self.exported_at_shutdown,
            failed_at_shutdown: self.failed_at_shutdown,
        }
    }
}

impl PipelineView {
    /// The invariant of a pipeline: its configuration is valid, the queue is
    /// within its bound, what waits in it is marked as queued, and every span
    /// that the queue took either waits in it still or has left in a batch.
    pub open spec fn wf(&self) -> bool {
        &&& self.config.valid()
        &&& self.queue.len() <= self.config.max_queue_size
        &&& self.accepted == self.released + self.queue.len()
        &&& forall|i: int|
            0 <= i < self.queue.len() ==> (#[trigger] self.queue[i]).state == SpanState::Queued
                && self.queue[i].queued_nanos is Some
    }
}

impl Pipeline {
    /// A pipeline with an empty queue; `None` where the configuration is not
    /// valid.
    pub fn new(config: ExporterConfig) -> (made: Option<Pipeline>)
        ensures
            made is Some <==> config.valid(),
            made is Some ==> made.unwrap()@ == (PipelineView {
                config,
                queue: Seq::empty(),
                shut_down: false,
                accepted: 0,
                released: 0,
                dropped: 0,
                exported: 0,
                failed: 0,
                exported_at_shutdown: 0,
                failed_at_shutdown: 0,
            }) && made.unwrap()@.wf(),
    {
        if !config.is_valid() {
            return None;
        }
        Some(
            Pipeline {
                config,
                queue: Vec::new(),
                shut_down: false,
                accepted: Ghost(0),
                released: Ghost(0),
                dropped: 0,
                exported: 0,
                failed: 0,
                exported_at_shutdown: 0,
                failed_at_shutdown: 0,
            },
        )
    }

    /// Takes a closed span at the instant `now`. A full queue sheds it and
    /// counts the loss, and so does a pipeline that was shut down; what waits
    /// already is never displaced. A span that is not closed is refused and
    /// nothing changes.
    pub fn record(&mut self, span: Span, now: u64) -> (outcome: RecordOutcome)
        requires
            old(self)@.wf(),
        ensures
            final(self)@.wf(),
            outcome == if span.state != SpanState::Closed {
                RecordOutcome::RejectedNotClosed
            } else if old(self)@.shut_down {
                RecordOutcome::DroppedShutDown
            } else if old(self)@.queue.len() >= old(self)@.config.max_queue_size {
                RecordOutcome::DroppedQueueFull
            } else {
                RecordOutcome::Queued
            },
            final(self)@ == match outcome {
                RecordOutcome::RejectedNotClosed => old(self)@,
                RecordOutcome::DroppedQueueFull | RecordOutcome::DroppedShutDown => PipelineView {
                    dropped: counted(old(self)@.dropped, 1),
                    ..old(self)@
                },
                RecordOutcome::Queued => PipelineView {
                    queue: old(self)@.queue.push(enqueued(span, now)),
                    accepted: old(self)@.accepted + 1,
                    ..old(self)@
                },
            },
    {
        if span.state != SpanState::Closed {
            return RecordOutcome::RejectedNotClosed;
        }
        if self.shut_down || self.queue.len() >= self.config.max_queue_size {
            if self.dropped < u64::MAX {
                self.dropped = self.dropped + 1;
            }
            return if self.shut_down {
                RecordOutcome::DroppedShutDown
            } else {
                RecordOutcome::DroppedQueueFull
            };
        }
        let mut span = span;
        span.state = SpanState::Queued;
        span.queued_nanos = Some(now);
        self.queue.push(span);
        proof {
            self.accepted@ = self.accepted@ + 1;
        }
        RecordOutcome::Queued
    }

    /// Whether a batch is due at the instant `now`.
    pub fn is_due(&self, now: u64) -> (due: bool)
        ensures
            due == batch_due(self@.queue, self@.config, now),
    {
        if self.queue.len() >= self.config.max_batch_size {
            return true;
        }
        if self.queue.len() == 0 {
            return false;
        }
        match self.queue[0].queued_nanos {
            Some(since) if now >= since => now - since >= self.config.scheduled_delay_nanos,
            _ => self.config.scheduled_delay_nanos == 0,
        }
    }

    /// Gives up the next batch if one is due at the instant `now`: the oldest
    /// spans of the queue, as many as a batch may hold. The rest waits on, in
    /// its order.
    pub fn next_batch(&mut self, now: u64) -> (batch: Option<Vec<Span>>)
        requires
            old(self)@.wf(),
        ensures
            final(self)@.wf(),
            batch is Some <==> batch_due(old(self)@.queue, old(self)@.config, now),
            batch is None ==> final(self)@ == old(self)@,
            batch is Some ==> {
                let n = at_most(
                    old(self)@.queue.len(),
                    old(self)@.config.max_batch_size as nat,
                ) as int;
                &&& batch.unwrap()@ == old(self)@.queue.take(n)
                &&& batch.unwrap()@ == chunks(
                    old(self)@.queue,
                    old(self)@.config.max_batch_size as nat,
                )[0]
                &&& final(self)@ == PipelineView {
                    queue: old(self)@.queue.skip(n),
                    released: old(self)@.released + n as nat,
                    ..old(self)@
                }
            },
    {
        if !self.is_due(now) {
            return None;
        }
        Some(self.take_front())
    }

    /// Cuts the oldest spans off the queue, as many as a batch may hold.
    fn take_front(&mut self) -> (batch: Vec<Span>)
        requires
            old(self)@.wf(),
            old(self)@.queue.len() > 0,
        ensures
            final(self)@.wf(),
            batch@ == old(self)@.queue.take(
                at_most(old(self)@.queue.len(), old(self)@.config.max_batch_size as nat) as int,
            ),
            batch@ == chunks(old(self)@.queue, old(self)@.config.max_batch_size as nat)[0],
            final(self)@ == (PipelineView {
                queue: old(self)@.queue.skip(
                    at_most(old(self)@.queue.len(), old(self)@.config.max_batch_size as nat) as int,
                ),
                released: old(self)@.released + at_most(
                    old(self)@.queue.len(),
                    old(self)@.config.max_batch_size as nat,
                ),
                ..old(self)@
            }),
    {
        let n: usize = if self.queue.len() < self.config.max_batch_size {
            self.queue.len()
        } else {
            self.config.max_batch_size
        };
        let mut batch = self.queue.split_off(n);
        std::mem::swap(&mut self.queue, &mut batch);
        proof {
            self.released@ = self.released@ + n as nat;
            assert(batch@ =~= old(self)@.queue.take(n as int));
            assert(self.queue@ =~= old(self)@.queue.skip(n as int));
        }
        batch
    }

    /// Empties the queue: every span that waits leaves, in batches cut from
    /// the front, each as large as a batch may be but the last. After it,
    /// every span that the queue ever took has left in a batch.
    pub fn drain(&mut self) -> (batches: Vec<Vec<Span>>)
        requires
            old(self)@.wf(),
        ensures
            final(self)@.wf(),
            final(self)@ == (PipelineView {
                queue: Seq::empty(),
                released: old(self)@.accepted,
                ..old(self)@
            }),
            batch_views(batches@) == chunks(
                old(self)@.queue,
                old(self)@.config.max_batch_size as nat,
            ),
            batch_views(batches@).flatten() == old(self)@.queue,
    {
        let ghost max = self.config.max_batch_size as nat;
        let ghost whole = chunks(self@.queue, max);
        let mut batches: Vec<Vec<Span>> = Vec::new();
        proof {
            assert(batch_views(batches@) + chunks(self@.queue, max) =~= whole);
        }
        while self.queue.len() > 0
            invariant
                self@.wf(),
                max == self@.config.max_batch_size,
                self@.config == old(self)@.config,
                self@.shut_down == old(self)@.shut_down,
                self@.accepted == old(self)@.accepted,
                self@.dropped == old(self)@.dropped,
                self@.exported == old(self)@.exported,
                self@.failed == old(self)@.failed,
                self@.exported_at_shutdown == old(self)@.exported_at_shutdown,
                self@.failed_at_shutdown == old(self)@.failed_at_shutdown,
                batch_views(batches@) + chunks(self@.queue, max) == whole,
            decreases self@.queue.len(),
        {
            let ghost before = batch_views(batches@);
            let ghost queue = self@.queue;
            let batch = self.take_front();
            batches.push(batch);
            proof {
                let n = at_most(queue.len(), max) as int;
                assert(chunks(queue, max) =~= seq![queue.take(n)] + chunks(queue.skip(n), max));
                assert(batch_views(batches@) =~= before.push(batch@));
                assert(batch_views(batches@) + chunks(self@.queue, max) =~= before + chunks(
                    queue,
                    max,
                ));
            }
        }
        proof {
            assert(self@.queue =~= Seq::empty());
            assert(batch_views(batches@) =~= whole);
            lemma_chunks_cover(old(self)@.queue, max);
        }
        batches
    }

    /// Shuts the pipeline down: every span that was queued before leaves in
    /// batches, as `drain` cuts them, and from now on no span is taken. The
    /// counters of exported and failed spans are noted as they stand, so that
    /// what the flush achieves can be told from what came before.
    pub fn shutdown(&mut self) -> (batches: Vec<Vec<Span>>)
        requires
            old(self)@.wf(),
        ensures
            final(self)@.wf(),
            final(self)@ == shut(old(self)@),
            batch_views(batches@) == chunks(
                old(self)@.queue,
                old(self)@.config.max_batch_size as nat,
            ),
            batch_views(batches@).flatten() == old(self)@.queue,
    {
        if !self.shut_down {
            self.shut_down = true;
            self.exported_at_shutdown = self.exported;
            self.failed_at_shutdown = self.failed;
        }
        self.drain()
    }

    /// Takes note of how the export of a batch went: its spans count as
    /// exported, or as failed. A failure stays here; it stops nothing.
    pub fn settle(&mut self, batch: &Vec<Span>, delivered: bool)
        ensures
            final(self)@ == settled(old(self)@, batch@.len(), delivered),
    {
        let n: u64 = batch.len() as u64;
        if delivered {
            self.exported = if n <= u64::MAX - self.exported {
                self.exported + n
            } else {
                u64::MAX
            };
        } else {
            self.failed = if n <= u64::MAX - self.failed {
                self.failed + n
            } else {
                u64::MAX
            };
        }
    }

    /// How long to wait at the instant `now` until a batch is due, in
    /// nanoseconds: nothing to wait for while the queue is empty, no time at
    /// all once a batch is due, else what the oldest span lacks of the delay.
    pub fn time_until_due(&self, now: u64) -> (wait: Option<u64>)
        ensures
            wait == time_to_wait(self@.queue, self@.config, now),
    {
        if self.queue.len() == 0 {
            return None;
        }
        if self.is_due(now) {
            return Some(0);
        }
        match self.queue[0].queued_nanos {
            Some(since) if now >= since => Some(
                self.config.scheduled_delay_nanos - (now - since),
            ),
            _ => Some(self.config.scheduled_delay_nanos),
        }
    }

    /// Decides at the instant `now` what becomes of the next batch of a flush
    /// that began at the instant `began`. While the shutdown timeout has time
    /// left, the batch is to be sent within what is left, in nanoseconds, and
    /// nothing changes yet. Once the time is used up the batch is not sent:
    /// its spans count as failed.
    pub fn flush_next(&mut self, batch: &Vec<Span>, began: u64, now: u64) -> (limit: Option<u64>)
        ensures
            limit == time_left(old(self)@.config.shutdown_timeout_nanos, began, now),
            limit is Some ==> final(self)@ == old(self)@,
            limit is None ==> final(self)@ == settled(old(self)@, batch@.len(), false),
    {
        let used: u64 = if now >= began {
            now - began
        } else {
            0
        };
        if used >= self.config.shutdown_timeout_nanos {
            self.settle(batch, false);
            None
        } else {
            Some(self.config.shutdown_timeout_nanos - used)
        }
    }

    /// How many spans were exported since the pipeline was shut down; before
    /// a shutdown, how many were exported at all.
    pub fn flushed_at_shutdown(&self) -> (n: u64)
        ensures
            n == since(self@.exported, self@.exported_at_shutdown),
    {
        if self.exported >= self.exported_at_shutdown {
            self.exported - self.exported_at_shutdown
        } else {
            0
        }
    }

    /// How many spans were counted as failed since the pipeline was shut
    /// down: those of the batches that could not be delivered or for which no
    /// time was left. Before a shutdown, how many failed at all.
    pub fn lost_at_shutdown(&self) -> (n: u64)
        ensures
            n == since(self@.failed, self@.failed_at_shutdown),
    {
        if self.failed >= self.failed_at_shutdown {
            self.failed - self.failed_at_shutdown
        } else {
            0
        }
    }

    /// The configuration that the pipeline was built on.
    pub fn config(&self) -> (config: &ExporterConfig)
        ensures
            *config == self@.config,
    {
        &self.config
    }

    /// How many spans wait.
    pub fn queued(&self) -> (n: usize)
        ensures
            n == self@.queue.len(),
    {
        self.queue.len()
    }

    /// Whether the pipeline was shut down.
    pub fn is_shut_down(&self) -> (down: bool)
        ensures
            down == self@.shut_down,
    {
        self.shut_down
    }

    /// How many spans were shed, by a full queue or after shutdown.
    pub fn dropped(&self) -> (n: u64)
        ensures
            n == self@.dropped,
    {
        self.dropped
    }

    /// How many spans left in batches that the collector took.
    pub fn exported(&self) -> (n: u64)
        ensures
            n == self@.exported,
    {
        self.exported
    }

    /// How many spans left in batches whose export failed.
    pub fn failed(&self) -> (n: u64)
        ensures
            n == self@.failed,
    {
        self.failed
    }
}

} // verus!
