//! The lifecycle outbox: the handle that events are emitted through.
use vstd::prelude::*;

use crate::outbox::append;
use crate::outbox::append::OutboxFile;
use crate::outbox::envelope::{EnvelopeView, LifecycleEvent, RuntimeEventEnvelope};
use crate::outbox::error::OutboxError;
use crate::outbox::pairing;
use crate::outbox::queue;
use crate::outbox::queue::{OutboxInner, Receipt, Receiver, Spawn, Webhook};
use crate::outbox::reconcile;
use crate::json;
use crate::text;

verus! {

/// Receipt of a bounded exit flush.
#[derive(Debug, Clone, Copy, PartialEq, Eq, Structural)]
pub struct OutboxFlushReport {
    /// Every event accepted before the queue was closed was tried by the writer
    /// before the deadline.
    pub drained: bool,
    /// Events appended by this process's writer since it started.
    pub appended: u64,
}

/// What a waiting flush is to do next.
#[derive(Debug, Clone, Copy, PartialEq, Eq, Structural)]
pub enum FlushStep {
    /// Look again a little later.
    Sleep,
    /// Stop waiting.
    Done(OutboxFlushReport),
}

/// What a wait for the queue to drain is to do next.
#[derive(Debug, Clone, Copy, PartialEq, Eq, Structural)]
pub enum DrainStep {
    /// Look again a little later.
    Sleep,
    /// The queue has drained.
    Drained,
    /// The deadline has passed; go on with the file as it is.
    GiveUp,
}

/// A flush under way.
pub struct Flush {
    /// Whether it holds the right to the writer's receipt.
    pub receipt_held: bool,
}

/// What became of an emitted event.
#[derive(Debug, Clone, Copy, PartialEq, Eq, Structural)]
pub enum Emitted {
    /// Nothing: the outbox is disabled.
    Ignored,
    /// It was queued.
    Queued(Spawn),
    /// It was dropped.
    Dropped(OutboxError),
}

/// The lifecycle outbox handle. Without a path the outbox is disabled, and
/// emitting does nothing.
pub struct LifecycleOutbox {
    pub inner: Option<OutboxInner>,
}

/// What a flush that sees an outbox in this state is to do: report once the
/// queue has drained and the writer has ended, and give up waiting at the
/// deadline. Either way it reports how many events were appended.
pub open spec fn flush_step(
    inner: OutboxInner,
    receipt: Receipt,
    deadline_passed: bool,
) -> FlushStep {
    let drained = inner.pending() == 0;
    if deadline_passed || (drained && receipt != Receipt::Empty) {
        FlushStep::Done(OutboxFlushReport { drained, appended: inner.appended })
    } else {
        FlushStep::Sleep
    }
}

/// The report of an asynchronous flush that sees an outbox in this state.
pub open spec fn flush_report(inner: OutboxInner, drained_in_time: bool) -> OutboxFlushReport {
    OutboxFlushReport {
        drained: drained_in_time && inner.pending() == 0,
        appended: inner.appended,
    }
}

/// What a reconciliation without a deadline does to a file: nothing for a disabled
/// outbox, an empty thread id or a missing file, and else all repairs of the
/// thread.
pub open spec fn boot_reconciles(
    enabled: bool,
    before: OutboxFile,
    file_exists: bool,
    thread: Seq<char>,
    reason: Seq<char>,
    result: Result<usize, OutboxError>,
    after: OutboxFile,
) -> bool {
    if !enabled || thread.len() == 0 || !file_exists {
        result == Ok::<usize, OutboxError>(0) && after == before
    } else {
        exists|written: Seq<EnvelopeView>| #[trigger]
            reconcile::reconciles(
                before@,
                after@,
                reconcile::all_repairs(before@, thread, reason),
                written,
                result,
            )
    }
}

/// What a reconciliation with a deadline does to a file: nothing for a disabled
/// outbox or an empty thread id, nothing but to fail where the lock was not had,
/// nothing for a missing file, and else the repairs of the first turns, as many
/// as the clock leaves time for: all of them if the deadline never passes, none
/// if it has passed.
pub open spec fn bounded_reconciles<F: Fn() -> bool>(
    enabled: bool,
    before: OutboxFile,
    file_exists: bool,
    locked: bool,
    thread: Seq<char>,
    reason: Seq<char>,
    deadline_passed: F,
    result: Result<usize, OutboxError>,
    after: OutboxFile,
) -> bool {
    if !enabled || thread.len() == 0 {
        result == Ok::<usize, OutboxError>(0) && after == before
    } else if !locked {
        result == Err::<usize, OutboxError>(OutboxError::LockTimeout) && after == before
    } else if !file_exists {
        result == Ok::<usize, OutboxError>(0) && after == before
    } else {
        reconcile::reconciles_in_time(before, thread, reason, deadline_passed, result, after)
    }
}

impl Default for LifecycleOutbox {
    fn default() -> (outbox: Self)
        ensures
            outbox.inner is None,
    {
        LifecycleOutbox::disabled()
    }
}

impl LifecycleOutbox {
    pub open spec fn wf(&self) -> bool {
        self.inner is Some ==> self.inner->0.wf()
    }

    /// An outbox that writes to `path`, where it is set and not empty.
    ///
    /// A webhook is added where its URL is set and not blank; it never replaces
    /// the file.
    pub fn new(
        path: Option<String>,
        webhook_url: Option<String>,
        webhook_token: Option<String>,
    ) -> (outbox: Self)
        ensures
            outbox.wf(),
            outbox.inner is Some <==> path is Some && path->0@.len() > 0,
            outbox.inner is Some ==> ({
                let inner = outbox.inner->0;
                &&& inner.path == path->0
                &&& inner.open
                &&& inner.accepted@.len() == 0
                &&& inner.pending() == 0
                &&& inner.receiver == Receiver::Waiting
                &&& !inner.receipt_taken
                &&& inner.appended == 0
                &&& inner.webhook_busy == 0
                &&& inner.webhook is Some <==> webhook_url is Some && text::trimmed(
                    webhook_url->0@,
                ).len() > 0
                &&& inner.webhook is Some ==> inner.webhook->0.url@ == text::trimmed(
                    webhook_url->0@,
                ) && inner.webhook->0.token == webhook_token
            }),
    {
        let path = match path {
            Some(path) => if path.as_str().is_empty() {
                return LifecycleOutbox::disabled();
            } else {
                path
            },
            None => return LifecycleOutbox::disabled(),
        };
        let webhook = match webhook_url {
            Some(url) => {
                let url = text::trim(url.as_str());
                if url.as_str().is_empty() {
                    None
                } else {
                    Some(Webhook { url, token: webhook_token })
                }
            },
            None => None,
        };
        LifecycleOutbox { inner: Some(OutboxInner::new(path, webhook)) }
    }

    /// An outbox that drops every event.
    pub fn disabled() -> (outbox: Self)
        ensures
            outbox.inner is None,
    {
        LifecycleOutbox { inner: None }
    }

    /// Whether a path was configured.
    pub fn is_enabled(&self) -> (enabled: bool)
        ensures
            enabled == (self.inner is Some),
    {
        self.inner.is_some()
    }

    /// Emits one event: it is queued for the writer, which is to be started on
    /// first use. An event is dropped where the queue is closed, and where no
    /// writer would ever take it: it is lost, or there is no runtime to start it
    /// on.
    pub fn emit(&mut self, event: LifecycleEvent, runtime_available: bool) -> (emitted: Emitted)
        requires
            old(self).wf(),
        ensures
            final(self).wf(),
            final(self).inner is Some <==> old(self).inner is Some,
            match old(self).inner {
                None => emitted == Emitted::Ignored,
                Some(before) => {
                    let after = final(self).inner->0;
                    match queue::dropped_for(before, runtime_available) {
                        Some(error) => emitted == Emitted::Dropped(error) && after == before,
                        None => emitted == Emitted::Queued(
                            queue::spawn_of(before, runtime_available),
                        ) && queue::enqueues(before, event, runtime_available, after),
                    }
                },
            },
            old(self).inner is Some ==> {
                let before = old(self).inner->0;
                let after = final(self).inner->0;
                &&& !before.open ==> emitted == Emitted::Dropped(OutboxError::Closed)
                &&& before.open && before.receiver == Receiver::Lost ==> emitted
                    == Emitted::Dropped(OutboxError::WriterGone)
                &&& before.open && !before.writer_spawned && !runtime_available ==> emitted
                    == Emitted::Dropped(OutboxError::NoRuntime)
                &&& before.open && !before.writer_spawned && runtime_available ==> emitted
                    == Emitted::Queued(Spawn::Start)
                &&& before.open && before.writer_spawned && before.receiver != Receiver::Lost
                    ==> emitted == Emitted::Queued(Spawn::Running)
                &&& emitted is Queued ==> after.queue@ == before.queue@.push(event)
                    && after.writer_spawned
                &&& emitted is Dropped ==> after == before
                &&& after.webhook == before.webhook && after.path == before.path
            },
    {
        match &mut self.inner {
            None => Emitted::Ignored,
            Some(inner) => match inner.enqueue(event, runtime_available) {
                Ok(spawn) => Emitted::Queued(spawn),
                Err(error) => Emitted::Dropped(error),
            },
        }
    }

    /// Emits one event on the spot: it is appended to the file, past the queue.
    /// Returns the envelope written. A disabled outbox refuses.
    pub fn emit_blocking(&self, file: &mut OutboxFile, event: LifecycleEvent) -> (result: Result<
        RuntimeEventEnvelope,
        OutboxError,
    >)
        requires
            old(file).wf(),
            old(file).covers_window(),
        ensures
            self.inner is None ==> result == Err::<RuntimeEventEnvelope, OutboxError>(
                OutboxError::Disabled,
            ) && *final(file) == *old(file),
            self.inner is Some ==> match append::recovery(old(file)@, old(file).whole()).next {
                Err(error) => result == Err::<RuntimeEventEnvelope, OutboxError>(error)
                    && final(file)@ == old(file)@.take(
                    append::recovery(old(file)@, old(file).whole()).keep,
                ),
                Ok(_) => exists|e: EnvelopeView| #[trigger]
                    append::appends(
                        old(file)@,
                        old(file).whole(),
                        event@,
                        e,
                        final(file)@,
                    ) && (if append::fits(e) {
                        result is Ok && result->Ok_0@ == e
                    } else {
                        result == Err::<RuntimeEventEnvelope, OutboxError>(
                            OutboxError::LineTooLong { bytes: append::record_bytes(e) },
                        )
                    }),
            },
            final(file).wf(),
            final(file).settles_as(*old(file)),
            self.inner is Some ==> final(file).settled == old(file).settled_within(
                append::recovery(old(file)@, old(file).whole()).keep,
            ),
            result is Ok ==> {
                &&& self.inner is Some
                &&& result->Ok_0.event@ == event.event@
                &&& result->Ok_0.kind@ == event.kind@
                &&& result->Ok_0.thread_id@ == event.thread_id@
                &&& text::optional(result->Ok_0.turn_id) == text::optional(event.turn_id)
                &&& text::optional(result->Ok_0.item_id) == text::optional(event.item_id)
                &&& json::json_text(result->Ok_0.payload) == json::json_text(event.payload)
                &&& final(file)@.len() > 0 && final(file)@.last() == 10
            },
            result is Err ==> final(file)@.is_prefix_of(old(file)@),
    {
        proof {
            append::lemma_keep_within(old(file)@, old(file).whole());
        }
        if self.inner.is_none() {
            return Err(OutboxError::Disabled);
        }
        let (envelope, append_result) = match append::append_event_under_lock(file, event) {
            Ok(appended) => appended,
            Err(error) => return Err(error),
        };
        assert(append::appends(
            old(file)@,
            old(file).whole(),
            event@,
            envelope@,
            file@,
        ));
        match append_result {
            Ok(()) => Ok(envelope),
            Err(error) => Err(error),
        }
    }

    /// Ends the interrupted turns of `thread_id`, and returns how many. A
    /// disabled outbox, an empty thread id and a missing file have none.
    ///
    /// This is the boot path: no deadline cuts it short.
    pub fn reconcile_interrupted_turns(
        &self,
        file: &mut OutboxFile,
        file_exists: bool,
        thread_id: &str,
        reason: &str,
    ) -> (result: Result<usize, OutboxError>)
        requires
            old(file).wf(),
            old(file).whole(),
        ensures
            boot_reconciles(
                self.inner is Some,
                *old(file),
                file_exists,
                thread_id@,
                reason@,
                result,
                *final(file),
            ),
            self.inner is None || thread_id@.len() == 0 || !file_exists ==> result == Ok::<
                usize,
                OutboxError,
            >(0) && *final(file) == *old(file),
            final(file).wf(),
            final(file).settles_as(*old(file)),
    {
        if self.inner.is_none() || thread_id.is_empty() || !file_exists {
            return Ok(0);
        }
        let never = || -> (passed: bool)
            ensures
                !passed,
            { false };
        let result = reconcile::reconcile_interrupted_turns_under_lock(
            file,
            thread_id,
            reason,
            &never,
        );
        proof {
            let all = reconcile::turn_count(old(file)@, thread_id@) as int;
            let (considered, written) = choose|considered: int, written: Seq<EnvelopeView>|
                #[trigger]
                reconcile::reconciles(
                    old(file)@,
                    file@,
                    reconcile::repairs(old(file)@, thread_id@, reason@, considered),
                    written,
                    result,
                ) && (reconcile::never_passes(never) ==> considered == all);
            assert(reconcile::never_passes(never));
            assert(reconcile::reconciles(
                old(file)@,
                file@,
                reconcile::all_repairs(old(file)@, thread_id@, reason@),
                written,
                result,
            ));
        }
        result
    }

    /// Ends the interrupted turns of `thread_id` as far as the deadline allows,
    /// and returns how many it ended. What is left is for a later
    /// reconciliation. It fails where the lock was not had before the deadline.
    ///
    /// This is the path of a terminating signal, which must not wait long.
    pub fn reconcile_interrupted_turns_bounded<F: Fn() -> bool>(
        &self,
        file: &mut OutboxFile,
        file_exists: bool,
        locked: bool,
        thread_id: &str,
        reason: &str,
        deadline_passed: &F,
    ) -> (result: Result<usize, OutboxError>)
        requires
            old(file).wf(),
            old(file).whole(),
            deadline_passed.requires(()),
        ensures
            bounded_reconciles(
                self.inner is Some,
                *old(file),
                file_exists,
                locked,
                thread_id@,
                reason@,
                *deadline_passed,
                result,
                *final(file),
            ),
            self.inner is None || thread_id@.len() == 0 ==> result == Ok::<usize, OutboxError>(0),
            self.inner is Some && thread_id@.len() > 0 && !locked ==> result == Err::<
                usize,
                OutboxError,
            >(OutboxError::LockTimeout),
            self.inner is Some && thread_id@.len() > 0 && locked && !file_exists ==> result == Ok::<
                usize,
                OutboxError,
            >(0),
            self.inner is None || thread_id@.len() == 0 || !locked || !file_exists ==> *final(file)
                == *old(file),
            final(file).wf(),
            final(file).settles_as(*old(file)),
    {
        if self.inner.is_none() || thread_id.is_empty() {
            return Ok(0);
        }
        if !locked {
            return Err(OutboxError::LockTimeout);
        }
        if !file_exists {
            return Ok(0);
        }
        reconcile::reconcile_interrupted_turns_under_lock(file, thread_id, reason, deadline_passed)
    }

    /// Closes the queue: later events are dropped, and the writer ends once it
    /// has drained what is there. Closing twice is closing once.
    pub fn close(&mut self)
        requires
            old(self).wf(),
        ensures
            final(self).wf(),
            match old(self).inner {
                None => final(self).inner is None,
                Some(before) => final(self).inner == Some(OutboxInner { open: false, ..before }),
            },
    {
        if let Some(inner) = &mut self.inner {
            inner.close();
        }
    }

    /// Begins a blocking exit flush: closes the queue and takes the right to the
    /// writer's receipt. What follows is up to `poll_flush`.
    pub fn flush_blocking(&mut self) -> (flush: Flush)
        requires
            old(self).wf(),
        ensures
            final(self).wf(),
            match old(self).inner {
                None => final(self).inner is None && !flush.receipt_held,
                Some(before) => {
                    &&& flush.receipt_held == (before.writer_spawned && !before.receipt_taken)
                    &&& final(self).inner == Some(
                        OutboxInner { open: false, receipt_taken: before.writer_spawned, ..before },
                    )
                },
            },
    {
        match &mut self.inner {
            None => Flush { receipt_held: false },
            Some(inner) => {
                inner.close();
                Flush { receipt_held: inner.take_receipt() }
            },
        }
    }

    /// What a flush under way is to do now. A disabled outbox has drained.
    pub fn poll_flush(&self, flush: &Flush, deadline_passed: bool) -> (step: FlushStep)
        ensures
            step == match self.inner {
                None => FlushStep::Done(OutboxFlushReport { drained: true, appended: 0 }),
                Some(inner) => flush_step(
                    inner,
                    queue::receipt_of(inner, flush.receipt_held),
                    deadline_passed,
                ),
            },
            self.inner is Some ==> {
                let inner = self.inner->0;
                let drained = inner.queue@.len() == 0 && !inner.delivering;
                let ended = !flush.receipt_held || inner.receiver == Receiver::Finished
                    || inner.receiver == Receiver::Lost;
                &&& step is Done <==> deadline_passed || (drained && ended)
                &&& step is Done ==> step->Done_0.drained == drained && step->Done_0.appended
                    == inner.appended
            },
    {
        let inner = match &self.inner {
            None => return FlushStep::Done(OutboxFlushReport { drained: true, appended: 0 }),
            Some(inner) => inner,
        };
        let drained = inner.drained();
        let ended = match inner.read_receipt(flush.receipt_held) {
            Receipt::Empty => false,
            _ => true,
        };
        if deadline_passed || (drained && ended) {
            FlushStep::Done(OutboxFlushReport { drained, appended: inner.appended })
        } else {
            FlushStep::Sleep
        }
    }

    /// The report of an asynchronous flush, which has closed the queue and waited:
    /// `drained_in_time` says whether the wait ended before the deadline. The queue
    /// has drained if it did and nothing is pending. A disabled outbox has drained.
    pub fn flush(&self, drained_in_time: bool) -> (report: OutboxFlushReport)
        ensures
            report == match self.inner {
                Some(inner) => flush_report(inner, drained_in_time),
                None => OutboxFlushReport { drained: true, appended: 0 },
            },
            self.inner is Some ==> {
                let inner = self.inner->0;
                &&& report.drained == (drained_in_time && inner.queue@.len() == 0
                    && !inner.delivering)
                &&& report.appended == inner.appended
            },
    {
        match &self.inner {
            Some(inner) => OutboxFlushReport {
                drained: drained_in_time && inner.drained(),
                appended: inner.appended,
            },
            None => OutboxFlushReport { drained: true, appended: 0 },
        }
    }

    /// What a wait for this process's own events to reach the file is to do now.
    pub fn wait_for_pending_drain(&self, deadline_passed: bool) -> (step: DrainStep)
        ensures
            step == if self.inner is None || self.inner->0.pending() == 0 {
                DrainStep::Drained
            } else if deadline_passed {
                DrainStep::GiveUp
            } else {
                DrainStep::Sleep
            },
            step == DrainStep::Drained <==> self.inner is None || (self.inner->0.queue@.len() == 0
                && !self.inner->0.delivering),
            step == DrainStep::GiveUp ==> deadline_passed,
            step == DrainStep::Sleep ==> !deadline_passed,
    {
        match &self.inner {
            None => DrainStep::Drained,
            Some(inner) => if inner.drained() {
                DrainStep::Drained
            } else if deadline_passed {
                DrainStep::GiveUp
            } else {
                DrainStep::Sleep
            },
        }
    }
}

/// A flush that reports a drained queue has seen every accepted event tried, and
/// whatever it reports counts the events appended since the writer started: no
/// more than there were. This holds of the blocking flush and of the asynchronous
/// one, whose reports agree where its wait ended in time.
pub proof fn law_flush_reports_are_true(
    inner: OutboxInner,
    receipt: Receipt,
    passed: bool,
    in_time: bool,
)
    requires
        inner.wf(),
    ensures
        inner.appended <= inner.accepted@.len(),
        flush_step(inner, receipt, passed) matches FlushStep::Done(report) ==> {
            &&& report.appended == inner.appended
            &&& report.drained ==> inner.attempted@ == inner.accepted@.len()
            &&& report == flush_report(inner, true)
        },
        flush_report(inner, in_time).appended == inner.appended,
        flush_report(inner, in_time).drained ==> inner.attempted@ == inner.accepted@.len(),
{
}

/// A flush waits exactly as long as events are pending or the writer has not ended,
/// and the deadline has not passed. It reports a drained queue only where nothing
/// is waiting and nothing is under way.
pub proof fn law_flush_waits_for_the_writer(
    inner: OutboxInner,
    receipt: Receipt,
    passed: bool,
    in_time: bool,
)
    ensures
        flush_step(inner, receipt, passed) is Sleep <==> !passed && (inner.queue@.len() > 0
            || inner.delivering || receipt == Receipt::Empty),
        flush_step(inner, receipt, passed) matches FlushStep::Done(report) ==> report.appended
            == inner.appended && report.drained == (inner.queue@.len() == 0 && !inner.delivering),
        flush_report(inner, in_time).appended == inner.appended,
        flush_report(inner, in_time).drained == (in_time && inner.queue@.len() == 0
            && !inner.delivering),
{
}

/// A flush always ends: at the deadline it reports, whatever it sees.
pub proof fn law_flush_ends_at_the_deadline(inner: OutboxInner, receipt: Receipt)
    ensures
        flush_step(inner, receipt, true) is Done,
{
}

/// Flushing again, with nothing appended in between, reports as many events as
/// the first time.
pub proof fn law_flushing_again_reports_the_same(
    inner: OutboxInner,
    first: Receipt,
    first_passed: bool,
    later: OutboxInner,
    second: Receipt,
    second_passed: bool,
)
    requires
        later.appended == inner.appended,
        flush_step(inner, first, first_passed) is Done,
        flush_step(later, second, second_passed) is Done,
    ensures
        flush_step(later, second, second_passed)->Done_0.appended == flush_step(
            inner,
            first,
            first_passed,
        )->Done_0.appended,
{
}

/// A bounded reconciliation that does not get the lock fails, with a message that
/// names the deadline, and changes nothing. The boot reconciliation after it makes
/// up for it: it ends every turn that was interrupted, or fails at an append that
/// is refused.
pub proof fn law_boot_makes_up_for_a_missed_lock<F: Fn() -> bool>(
    before: OutboxFile,
    thread: Seq<char>,
    reason: Seq<char>,
    deadline_passed: F,
    first: Result<usize, OutboxError>,
    between: OutboxFile,
    boot_reason: Seq<char>,
    second: Result<usize, OutboxError>,
    after: OutboxFile,
    turn: Seq<char>,
    path: Seq<char>,
)
    requires
        thread.len() > 0,
        reconcile::interrupted(
            reconcile::envelopes_on(reconcile::lines_of(before@)),
            thread,
            turn,
        ),
        bounded_reconciles(
            true,
            before,
            true,
            false,
            thread,
            reason,
            deadline_passed,
            first,
            between,
        ),
        boot_reconciles(true, between, true, thread, boot_reason, second, after),
    ensures
        first == Err::<usize, OutboxError>(OutboxError::LockTimeout),
        first->Err_0.text(path) == "failed to lock outbox "@ + path + ".lock before the deadline"@,
        between == before,
        match second {
            Ok(count) => {
                let es = reconcile::envelopes_on(reconcile::lines_of(after@));
                &&& count == reconcile::all_repairs(before@, thread, boot_reason).len()
                &&& count > 0
                &&& reconcile::starts(es, thread, turn) == 1
                &&& reconcile::ends(es, thread, turn) == 1
            },
            Err(_) => exists|written: Seq<EnvelopeView>| #[trigger]
                reconcile::reconciles(
                    before@,
                    after@,
                    reconcile::all_repairs(before@, thread, boot_reason),
                    written,
                    second,
                ),
        },
{
    let written = choose|written: Seq<EnvelopeView>| #[trigger]
        reconcile::reconciles(
            before@,
            after@,
            reconcile::all_repairs(before@, thread, boot_reason),
            written,
            second,
        );
    if let Ok(count) = second {
        pairing::law_reconciliation_ends_every_turn(
            before@,
            thread,
            boot_reason,
            written,
            count,
            after@,
            turn,
        );
    }
}

} // verus!
