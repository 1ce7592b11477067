//! Batched reporting of meter data.
//!
//! A collector evaluates the meters of a stream when the stream ends, so
//! points are buffered and each flush sends them as one short stream. A batch
//! that fails is kept and sent again after a pause, until it has failed a
//! number of times or the next send would not begin within a time limit,
//! whichever comes first; then it is dropped.
use vstd::prelude::*;

verus! {

/// Seconds between two flushes.
pub const FLUSH_INTERVAL_SECS: u64 = 5;

/// Seconds between a failed send and the next.
pub const BATCH_RETRY_INTERVAL_SECS: u64 = 5;

/// `BATCH_RETRY_INTERVAL_SECS` in nanoseconds.
pub const BATCH_RETRY_INTERVAL_NANOS: u128 = 5_000_000_000;

/// So many failures end a batch.
pub const MAX_BATCH_RETRY_ATTEMPTS: u32 = 12;

/// A failed batch is held for less than so many seconds after its flush began:
/// no later send begins.
pub const MAX_BATCH_RETENTION_SECS: u64 = 300;

/// `MAX_BATCH_RETENTION_SECS` in nanoseconds.
pub const MAX_BATCH_RETENTION_NANOS: u128 = 300_000_000_000;

/// A batch that has been taken from the buffer and not been delivered yet.
pub struct PendingBatch<M> {
    points: Vec<M>,
    failures: u32,
}

/// What became of a batch by an attempt to send it.
pub enum FlushStep<M> {
    /// It was sent.
    Delivered,
    /// It failed too often, or too late to be sent again, and is dropped.
    Dropped { failures: u32, count: usize },
    /// It failed, and is to be sent again after so many seconds.
    Retry { batch: PendingBatch<M>, after_secs: u64 },
}

/// Where a batch stands.
pub enum Fate {
    Pending { failures: nat },
    Delivered,
    Dropped { failures: nat },
}

/// An attempt to send a batch: whether it succeeded, and how many nanoseconds
/// after the flush began it ended.
pub struct Attempt {
    pub sent: bool,
    pub elapsed_ns: nat,
}

/// After a pause behind the attempt, the limit on holding a batch is not reached
/// yet: another send can begin.
pub open spec fn leaves_time(attempt: Attempt) -> bool {
    attempt.elapsed_ns + BATCH_RETRY_INTERVAL_NANOS < MAX_BATCH_RETENTION_NANOS
}

/// One attempt to send a batch that failed `failures` times before.
pub open spec fn after_attempt(failures: nat, attempt: Attempt) -> Fate {
    if attempt.sent {
        Fate::Delivered
    } else if failures + 1 >= MAX_BATCH_RETRY_ATTEMPTS || !leaves_time(attempt) {
        Fate::Dropped { failures: failures + 1 }
    } else {
        Fate::Pending { failures: failures + 1 }
    }
}

/// Where a batch stands after a number of attempts. Once it is delivered or
/// dropped there are no more.
pub open spec fn fate(attempts: Seq<Attempt>) -> Fate
    decreases attempts.len(),
{
    if attempts.len() == 0 {
        Fate::Pending { failures: 0 }
    } else {
        match fate(attempts.drop_last()) {
            Fate::Pending { failures } => after_attempt(failures, attempts.last()),
            ended => ended,
        }
    }
}

impl<M> FlushStep<M> {
    /// Where the batch stands after the step.
    pub open spec fn fate(self) -> Fate {
        match self {
            FlushStep::Delivered => Fate::Delivered,
            FlushStep::Dropped { failures, .. } => Fate::Dropped { failures: failures as nat },
            FlushStep::Retry { batch, .. } => Fate::Pending { failures: batch.failed() },
        }
    }
}

impl<M> PendingBatch<M> {
    /// A batch is never empty, and has not failed too often yet.
    #[verifier::type_invariant]
    spec fn well_formed(self) -> bool {
        &&& self.points@.len() > 0
        &&& self.failures < MAX_BATCH_RETRY_ATTEMPTS
    }

    /// The points of the batch.
    pub closed spec fn contents(self) -> Seq<M> {
        self.points@
    }

    /// How often the batch has failed.
    pub closed spec fn failed(self) -> nat {
        self.failures as nat
    }

    /// The points to send.
    pub fn points(&self) -> (r: &Vec<M>)
        ensures
            r@ == self.contents(),
            r@.len() > 0,
    {
        proof {
            use_type_invariant(self);
        }
        &self.points
    }

    /// How often the batch has failed.
    pub fn failures(&self) -> (r: u32)
        ensures
            r == self.failed(),
            r < MAX_BATCH_RETRY_ATTEMPTS,
    {
        proof {
            use_type_invariant(self);
        }
        self.failures
    }

    /// Takes the result of an attempt to send the batch, `elapsed_ns`
    /// nanoseconds after its flush began.
    pub fn attempted(self, sent: bool, elapsed_ns: u128) -> (r: FlushStep<M>)
        ensures
            r.fate() == after_attempt(
                self.failed(),
                Attempt { sent, elapsed_ns: elapsed_ns as nat },
            ),
            r is Delivered <==> sent,
            r is Retry <==> !sent && self.failed() + 1 < MAX_BATCH_RETRY_ATTEMPTS && elapsed_ns
                + BATCH_RETRY_INTERVAL_SECS * 1_000_000_000 < MAX_BATCH_RETENTION_SECS
                * 1_000_000_000,
            r matches FlushStep::Dropped { failures, count } ==> {
                &&& failures == self.failed() + 1
                &&& count == self.contents().len()
            },
            r matches FlushStep::Retry { batch, after_secs } ==> {
                &&& batch.contents() == self.contents()
                &&& batch.failed() == self.failed() + 1
                &&& after_secs == BATCH_RETRY_INTERVAL_SECS
            },
    {
        proof {
            use_type_invariant(&self);
        }
        if sent {
            return FlushStep::Delivered;
        }
        let failures: u32 = self.failures + 1;
        if failures >= MAX_BATCH_RETRY_ATTEMPTS || elapsed_ns >= MAX_BATCH_RETENTION_NANOS
            - BATCH_RETRY_INTERVAL_NANOS {
            return FlushStep::Dropped { failures, count: self.points.len() };
        }
        let batch = PendingBatch { points: self.points, failures };
        FlushStep::Retry { batch, after_secs: BATCH_RETRY_INTERVAL_SECS }
    }
}

/// Begins a flush: takes everything out of the buffer. An empty buffer gives
/// no batch.
pub fn flush_batch<M>(buffer: &mut Vec<M>) -> (r: Option<PendingBatch<M>>)
    ensures
        final(buffer)@.len() == 0,
        match r {
            Some(batch) => {
                &&& old(buffer)@.len() > 0
                &&& batch.contents() == old(buffer)@
                &&& batch.failed() == 0
            },
            None => old(buffer)@.len() == 0,
        },
{
    if buffer.len() == 0 {
        return None;
    }
    let mut points: Vec<M> = Vec::new();
    std::mem::swap(&mut points, buffer);
    Some(PendingBatch { points, failures: 0 })
}

/// What happens to a reporter.
pub enum ReporterEvent<M> {
    /// A point arrived.
    Received(M),
    /// No more points will arrive.
    Closed,
    /// It is time to flush.
    Tick,
}

/// What a reporter does next: it flushes the batch, if there is one, and then
/// ends, or waits for the next event.
pub struct ReporterStep<M> {
    pub flush: Option<PendingBatch<M>>,
    pub stop: bool,
}

/// The points that wait for the next flush.
pub struct MeterBatchReporter<M> {
    buffer: Vec<M>,
}

/// The buffer after an event. A point is buffered; a tick, and the end of the
/// points, empty the buffer.
pub open spec fn buffer_after<M>(buffer: Seq<M>, event: ReporterEvent<M>) -> Seq<M> {
    match event {
        ReporterEvent::Received(point) => buffer.push(point),
        _ => Seq::empty(),
    }
}

/// The batch that an event flushes: all that is buffered, if anything is.
pub open spec fn batch_of<M>(buffer: Seq<M>, event: ReporterEvent<M>) -> Option<Seq<M>> {
    if event is Received || buffer.len() == 0 {
        None
    } else {
        Some(buffer)
    }
}

impl<M> View for MeterBatchReporter<M> {
    type V = Seq<M>;

    closed spec fn view(&self) -> Seq<M> {
        self.buffer@
    }
}

impl<M> MeterBatchReporter<M> {
    pub fn new() -> (r: Self)
        ensures
            r@ == Seq::<M>::empty(),
    {
        MeterBatchReporter { buffer: Vec::new() }
    }
}

/// One round of a reporter: takes an event, and says what to flush and whether
/// to end.
pub fn run_meter_batch_reporter<M>(
    reporter: &mut MeterBatchReporter<M>,
    event: ReporterEvent<M>,
) -> (r: ReporterStep<M>)
    ensures
        final(reporter)@ == buffer_after(old(reporter)@, event),
        match r.flush {
            Some(batch) => {
                &&& batch_of(old(reporter)@, event) == Some(batch.contents())
                &&& batch.failed() == 0
            },
            None => batch_of(old(reporter)@, event) is None,
        },
        r.stop == (event is Closed),
{
    match event {
        ReporterEvent::Received(point) => {
            reporter.buffer.push(point);
            ReporterStep { flush: None, stop: false }
        },
        ReporterEvent::Closed => {
            let flush = flush_batch(&mut reporter.buffer);
            ReporterStep { flush, stop: true }
        },
        ReporterEvent::Tick => {
            let flush = flush_batch(&mut reporter.buffer);
            ReporterStep { flush, stop: false }
        },
    }
}

/// A failure that leaves time for another send.
pub open spec fn in_time(attempt: Attempt) -> bool {
    !attempt.sent && leaves_time(attempt)
}

/// The first `n` attempts all failed in time.
pub open spec fn failed_in_time(attempts: Seq<Attempt>, n: int) -> bool {
    forall|i: int| 0 <= i < n ==> in_time(#[trigger] attempts[i])
}

/// A batch is kept exactly as long as it has failed fewer than
/// `MAX_BATCH_RETRY_ATTEMPTS` times and each failure left time for another send
/// before `MAX_BATCH_RETENTION_SECS` are over.
pub proof fn law_batch_is_kept(attempts: Seq<Attempt>)
    ensures
        fate(attempts) is Pending <==> attempts.len() < MAX_BATCH_RETRY_ATTEMPTS
            && failed_in_time(attempts, attempts.len() as int),
        fate(attempts) matches Fate::Pending { failures } ==> failures == attempts.len(),
    decreases attempts.len(),
{
    if attempts.len() > 0 {
        let before = attempts.drop_last();
        law_batch_is_kept(before);
        let last = attempts.len() - 1;
        if fate(attempts) is Pending {
            assert forall|i: int| 0 <= i <= last implies in_time(#[trigger] attempts[i]) by {
                if i < last {
                    assert(in_time(before[i]));
                }
            }
        }
    }
}

/// The attempt at which a batch is delivered: the first that succeeds, with
/// only failures before it that left time for another send, and not too many.
pub open spec fn delivered_at(attempts: Seq<Attempt>, n: int) -> bool {
    &&& 0 <= n < attempts.len()
    &&& n < MAX_BATCH_RETRY_ATTEMPTS
    &&& attempts[n].sent
    &&& failed_in_time(attempts, n)
}

/// The attempt at which a batch is dropped: the failure that is one too many or
/// leaves no time for another send, with no success and no such failure before
/// it.
pub open spec fn dropped_at(attempts: Seq<Attempt>, n: int) -> bool {
    &&& 0 <= n < attempts.len()
    &&& n < MAX_BATCH_RETRY_ATTEMPTS
    &&& !attempts[n].sent
    &&& n + 1 == MAX_BATCH_RETRY_ATTEMPTS || !leaves_time(attempts[n])
    &&& failed_in_time(attempts, n)
}

/// What ends a batch at attempt `n` is the attempts up to there alone.
proof fn lemma_ends_at(attempts: Seq<Attempt>, n: int)
    requires
        delivered_at(attempts, n) || dropped_at(attempts, n),
    ensures
        fate(attempts) == if attempts[n].sent {
            Fate::Delivered
        } else {
            Fate::Dropped { failures: (n + 1) as nat }
        },
    decreases attempts.len(),
{
    let before = attempts.drop_last();
    if n + 1 < attempts.len() {
        lemma_ends_at(before, n);
    } else {
        law_batch_is_kept(before);
    }
}

/// A batch that is no longer kept ended at some attempt.
proof fn lemma_ended(attempts: Seq<Attempt>) -> (n: int)
    requires
        !(fate(attempts) is Pending),
    ensures
        delivered_at(attempts, n) || dropped_at(attempts, n),
    decreases attempts.len(),
{
    let before = attempts.drop_last();
    law_batch_is_kept(before);
    if fate(before) is Pending {
        let n = attempts.len() - 1;
        assert forall|i: int| 0 <= i < n implies in_time(#[trigger] attempts[i]) by {
            assert(in_time(before[i]));
        }
        n
    } else {
        let n = lemma_ended(before);
        assert forall|i: int| 0 <= i < n implies in_time(#[trigger] attempts[i]) by {
            assert(in_time(before[i]));
        }
        n
    }
}

/// A batch is delivered exactly where an attempt succeeds before a failure ends
/// the batch.
pub proof fn law_batch_is_delivered(attempts: Seq<Attempt>)
    ensures
        fate(attempts) is Delivered <==> exists|n: int| delivered_at(attempts, n),
{
    if exists|n: int| delivered_at(attempts, n) {
        let n = choose|n: int| delivered_at(attempts, n);
        lemma_ends_at(attempts, n);
    }
    if fate(attempts) is Delivered {
        let n = lemma_ended(attempts);
        lemma_ends_at(attempts, n);
    }
}

/// A batch is dropped exactly where a failure is one too many, or leaves no time
/// for another send, before an attempt succeeds.
pub proof fn law_batch_is_dropped(attempts: Seq<Attempt>)
    ensures
        fate(attempts) is Dropped <==> exists|n: int| dropped_at(attempts, n),
        forall|n: int| #[trigger]
            dropped_at(attempts, n) ==> fate(attempts) == (Fate::Dropped {
                failures: (n + 1) as nat,
            }),
{
    assert forall|n: int| #[trigger] dropped_at(attempts, n) implies fate(attempts) == (
    Fate::Dropped { failures: (n + 1) as nat }) by {
        lemma_ends_at(attempts, n);
    }
    if fate(attempts) is Dropped {
        let n = lemma_ended(attempts);
        lemma_ends_at(attempts, n);
    }
}

/// No batch is sent more than `MAX_BATCH_RETRY_ATTEMPTS` times: after so many
/// attempts it is delivered or dropped.
pub proof fn law_attempts_are_bounded(attempts: Seq<Attempt>)
    requires
        attempts.len() >= MAX_BATCH_RETRY_ATTEMPTS,
    ensures
        !(fate(attempts) is Pending),
{
    law_batch_is_kept(attempts);
}

/// No send begins once a batch has been held for `MAX_BATCH_RETENTION_SECS`: a
/// batch that is sent again, `BATCH_RETRY_INTERVAL_SECS` after an attempt ended,
/// is sent before that.
pub proof fn law_no_send_past_retention(attempts: Seq<Attempt>)
    requires
        attempts.len() > 0,
        fate(attempts) is Pending,
    ensures
        attempts.last().elapsed_ns + BATCH_RETRY_INTERVAL_SECS * 1_000_000_000
            < MAX_BATCH_RETENTION_SECS * 1_000_000_000,
{
    law_batch_is_kept(attempts);
}

/// What becomes of a batch by its attempts. With `n` failures in front, each
/// ending so early that a send `BATCH_RETRY_INTERVAL_SECS` later begins before
/// `MAX_BATCH_RETENTION_SECS` are over:
/// - it is kept, where these are all and fewer than `MAX_BATCH_RETRY_ATTEMPTS`;
/// - it is delivered, where the next attempt succeeds;
/// - it is dropped, where the next attempt fails and is either the last one
///   allowed or too late for another.
/// What comes behind the attempt that ended it does not count.
pub proof fn law_fate_by_the_limits(attempts: Seq<Attempt>, n: int)
    requires
        0 <= n <= attempts.len(),
        n < MAX_BATCH_RETRY_ATTEMPTS,
        forall|i: int|
            0 <= i < n ==> !(#[trigger] attempts[i]).sent && attempts[i].elapsed_ns
                + BATCH_RETRY_INTERVAL_SECS * 1_000_000_000 < MAX_BATCH_RETENTION_SECS
                * 1_000_000_000,
    ensures
        n == attempts.len() ==> fate(attempts) == (Fate::Pending { failures: n as nat }),
        n < attempts.len() && attempts[n].sent ==> fate(attempts) == Fate::Delivered,
        n < attempts.len() && !attempts[n].sent && (n + 1 == MAX_BATCH_RETRY_ATTEMPTS
            || attempts[n].elapsed_ns + BATCH_RETRY_INTERVAL_SECS * 1_000_000_000
            >= MAX_BATCH_RETENTION_SECS * 1_000_000_000) ==> fate(attempts) == (Fate::Dropped {
            failures: (n + 1) as nat,
        }),
{
    assert(failed_in_time(attempts, n));
    if n == attempts.len() {
        law_batch_is_kept(attempts);
    } else if delivered_at(attempts, n) || dropped_at(attempts, n) {
        lemma_ends_at(attempts, n);
    }
}

/// The step after an attempt tells the fate of its batch: nothing but a retry
/// leaves it pending, with the failures that the kept batch counts.
pub proof fn law_step_tells_the_fate<M>(step: FlushStep<M>)
    ensures
        step is Delivered <==> step.fate() is Delivered,
        step is Dropped <==> step.fate() is Dropped,
        step is Retry <==> step.fate() is Pending,
        step matches FlushStep::Dropped { failures, .. } ==> step.fate() == (Fate::Dropped {
            failures: failures as nat,
        }),
        step matches FlushStep::Retry { batch, .. } ==> step.fate() == (Fate::Pending {
            failures: batch.failed(),
        }),
{
}

/// What a reporter has done: what it still buffers, the batches it flushed,
/// and whether it has ended.
pub struct Report<M> {
    pub buffer: Seq<M>,
    pub batches: Seq<Seq<M>>,
    pub stopped: bool,
}

impl<M> Report<M> {
    /// One more event.
    pub open spec fn after(self, event: ReporterEvent<M>) -> Report<M> {
        Report {
            buffer: buffer_after(self.buffer, event),
            batches: match batch_of(self.buffer, event) {
                Some(batch) => self.batches.push(batch),
                None => self.batches,
            },
            stopped: event is Closed,
        }
    }

    /// More events, up to the one that ends the reporter.
    pub open spec fn after_all(self, events: Seq<ReporterEvent<M>>) -> Report<M>
        decreases events.len(),
    {
        if self.stopped || events.len() == 0 {
            self
        } else {
            self.after(events[0]).after_all(events.skip(1))
        }
    }

    /// All points of the batches, and those still buffered, in order.
    pub open spec fn points(self) -> Seq<M> {
        joined(self.batches) + self.buffer
    }
}

/// Batches one behind the other.
pub open spec fn joined<M>(batches: Seq<Seq<M>>) -> Seq<M>
    decreases batches.len(),
{
    if batches.len() == 0 {
        Seq::empty()
    } else {
        joined(batches.drop_last()) + batches.last()
    }
}

/// The points that arrive before the end.
pub open spec fn received<M>(events: Seq<ReporterEvent<M>>) -> Seq<M>
    decreases events.len(),
{
    if events.len() == 0 {
        Seq::empty()
    } else {
        match events[0] {
            ReporterEvent::Received(point) => seq![point] + received(events.skip(1)),
            ReporterEvent::Tick => received(events.skip(1)),
            ReporterEvent::Closed => Seq::empty(),
        }
    }
}

proof fn lemma_points_are_kept<M>(report: Report<M>, event: ReporterEvent<M>)
    ensures
        report.after(event).points() == report.points() + match event {
            ReporterEvent::Received(point) => seq![point],
            _ => Seq::empty(),
        },
{
    let batches = report.batches.push(report.buffer);
    assert(batches.drop_last() =~= report.batches);
}

/// No point is lost, doubled or moved: the batches one behind the other, and
/// then the buffer, are the points that arrived, in their order.
pub proof fn law_every_point_once<M>(report: Report<M>, events: Seq<ReporterEvent<M>>)
    requires
        !report.stopped,
    ensures
        report.after_all(events).points() == report.points() + received(events),
    decreases events.len(),
{
    if events.len() > 0 {
        let next = report.after(events[0]);
        lemma_points_are_kept(report, events[0]);
        if events[0] is Closed {
            assert(next.after_all(events.skip(1)) == next);
        } else {
            law_every_point_once(next, events.skip(1));
        }
    }
}

/// A reporter that has ended buffers nothing: all that arrived is in its
/// batches.
pub proof fn law_end_flushes_all<M>(report: Report<M>, events: Seq<ReporterEvent<M>>)
    requires
        !report.stopped,
        report.after_all(events).stopped,
    ensures
        report.after_all(events).buffer.len() == 0,
        joined(report.after_all(events).batches) == report.points() + received(events),
{
    law_every_point_once(report, events);
    lemma_ended_empty(report, events);
}

proof fn lemma_ended_empty<M>(report: Report<M>, events: Seq<ReporterEvent<M>>)
    requires
        report.stopped ==> report.buffer.len() == 0,
        report.after_all(events).stopped,
    ensures
        report.after_all(events).buffer.len() == 0,
    decreases events.len(),
{
    if !report.stopped && events.len() > 0 {
        lemma_ended_empty(report.after(events[0]), events.skip(1));
    }
}

/// A point that arrives is buffered behind the others and flushes nothing,
/// however many there are. A tick, and the end, flush the whole buffer as one
/// batch, and leave nothing behind; an empty buffer gives no batch.
pub proof fn law_events_flush_whole_buffers<M>(buffer: Seq<M>, point: M)
    ensures
        buffer_after(buffer, ReporterEvent::Received(point)).len() == buffer.len() + 1,
        buffer_after(buffer, ReporterEvent::Received(point)).last() == point,
        buffer_after(buffer, ReporterEvent::Received(point)).drop_last() == buffer,
        batch_of(buffer, ReporterEvent::Received(point)) is None,
        buffer_after(buffer, ReporterEvent::Tick).len() == 0,
        buffer_after(buffer, ReporterEvent::Closed).len() == 0,
        buffer.len() > 0 ==> batch_of(buffer, ReporterEvent::Tick) == Some(buffer),
        buffer.len() > 0 ==> batch_of(buffer, ReporterEvent::Closed) == Some(buffer),
        buffer.len() == 0 ==> batch_of(buffer, ReporterEvent::Tick) is None,
        buffer.len() == 0 ==> batch_of(buffer, ReporterEvent::Closed) is None,
{
    assert(buffer.push(point).drop_last() =~= buffer);
}

/// No empty batch is flushed.
pub proof fn law_no_empty_batch<M>(report: Report<M>, events: Seq<ReporterEvent<M>>)
    requires
        forall|i: int| 0 <= i < report.batches.len() ==> (#[trigger] report.batches[i]).len() > 0,
    ensures
        forall|i: int|
            0 <= i < report.after_all(events).batches.len() ==> (
            #[trigger] report.after_all(events).batches[i]).len() > 0,
    decreases events.len(),
{
    if !report.stopped && events.len() > 0 {
        let next = report.after(events[0]);
        law_no_empty_batch(next, events.skip(1));
        assert(report.after_all(events) == next.after_all(events.skip(1)));
    }
}

} // verus!
