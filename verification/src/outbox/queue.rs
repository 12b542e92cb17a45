//! The outbox's queue: what is waiting for the writer, whether the writer runs,
//! and how many webhook deliveries are under way.
use vstd::prelude::*;

use crate::outbox::append;
use crate::outbox::append::OutboxFile;
use crate::outbox::envelope;
use crate::outbox::envelope::{EnvelopeView, LifecycleEvent};
use crate::outbox::error::OutboxError;
use crate::json;
use crate::text;

verus! {

/// Upper bound on the webhook deliveries under way. When all slots are busy the
/// newest delivery is dropped; appending is never held up.
pub const WEBHOOK_MAX_IN_FLIGHT: usize = 4;

/// Where events are posted besides the file.
#[derive(Debug)]
pub struct Webhook {
    pub url: String,
    /// The bearer token to send along, if any.
    pub token: Option<String>,
}

/// Who holds the receiving end of the queue.
#[derive(Debug, Clone, Copy, PartialEq, Eq, Structural)]
pub enum Receiver {
    /// Nobody yet: the writer has not been started.
    Waiting,
    /// The writer.
    Taken,
    /// Nobody any more: the writer has drained the closed queue and ended.
    Finished,
    /// Nobody any more: the writer was lost with its runtime.
    Lost,
}

/// The writer's receipt, as a flush sees it.
#[derive(Debug, Clone, Copy, PartialEq, Eq, Structural)]
pub enum Receipt {
    /// There is none to wait for: no writer was started, or another flush has
    /// taken its receipt.
    Absent,
    /// The writer has not ended.
    Empty,
    /// The writer has drained the queue and ended.
    Ready,
    /// The writer ended without a receipt.
    Lost,
}

/// What became of a request to have the writer running.
#[derive(Debug, Clone, Copy, PartialEq, Eq, Structural)]
pub enum Spawn {
    /// It is to be started.
    Start,
    /// It was started before.
    Running,
    /// It cannot be started: there is no runtime.
    NoRuntime,
}

/// What the writer is to do next.
pub enum WriterStep {
    /// Append this event.
    Deliver(LifecycleEvent),
    /// Wait: the queue is empty, but open.
    Wait,
    /// End, and report so many appends: the queue is empty and closed.
    Finish(u64),
}

/// The state of an enabled outbox.
pub struct OutboxInner {
    /// The outbox file.
    pub path: String,
    pub webhook: Option<Webhook>,
    /// Whether events are accepted.
    pub open: bool,
    /// Events accepted and not yet taken by the writer, oldest first.
    pub queue: Vec<LifecycleEvent>,
    /// Whether the writer is working on an event.
    pub delivering: bool,
    pub receiver: Receiver,
    pub writer_spawned: bool,
    /// Whether a flush has taken the writer's receipt.
    pub receipt_taken: bool,
    /// How many events the writer has appended.
    pub appended: u64,
    /// How many webhook deliveries are under way.
    pub webhook_busy: usize,
    /// The events accepted so far, in order.
    pub accepted: Ghost<Seq<LifecycleEvent>>,
    /// How many events the writer has tried to append.
    pub attempted: Ghost<nat>,
}

/// A webhook delivery to start.
pub struct WebhookDelivery {
    pub url: String,
    pub token: Option<String>,
    pub payload: serde_json::Value,
}

/// One more, as far as it can be expressed.
pub open spec fn one_more(n: u64) -> u64 {
    if n < u64::MAX {
        (n + 1) as u64
    } else {
        n
    }
}

/// The writer's receipt, as a flush sees it that holds the right to it or not.
pub open spec fn receipt_of(inner: OutboxInner, held: bool) -> Receipt {
    if !held {
        Receipt::Absent
    } else if inner.receiver == Receiver::Finished {
        Receipt::Ready
    } else if inner.receiver == Receiver::Lost {
        Receipt::Lost
    } else {
        Receipt::Empty
    }
}

/// What a request to have the writer running comes to.
pub open spec fn spawn_of(inner: OutboxInner, runtime_available: bool) -> Spawn {
    if inner.writer_spawned {
        Spawn::Running
    } else if !runtime_available {
        Spawn::NoRuntime
    } else {
        Spawn::Start
    }
}

/// An outbox after a request to have its writer running.
pub open spec fn spawned(inner: OutboxInner, runtime_available: bool) -> OutboxInner {
    if spawn_of(inner, runtime_available) == Spawn::Start {
        OutboxInner { receiver: Receiver::Taken, writer_spawned: true, ..inner }
    } else {
        inner
    }
}

/// Why an outbox takes no event now, if it takes none: its queue is closed, its
/// writer is lost, or its writer was never started and cannot be.
pub open spec fn dropped_for(inner: OutboxInner, runtime_available: bool) -> Option<OutboxError> {
    if !inner.open {
        Some(OutboxError::Closed)
    } else if inner.receiver == Receiver::Lost {
        Some(OutboxError::WriterGone)
    } else if inner.receiver == Receiver::Waiting && !runtime_available {
        Some(OutboxError::NoRuntime)
    } else {
        None
    }
}

/// Whether `after` is `before` with one more event in the queue and its writer
/// running.
pub open spec fn enqueues(
    before: OutboxInner,
    event: LifecycleEvent,
    runtime_available: bool,
    after: OutboxInner,
) -> bool {
    &&& after.queue@ == before.queue@.push(event)
    &&& after.accepted@ == before.accepted@.push(event)
    &&& after == (OutboxInner {
        queue: after.queue,
        accepted: after.accepted,
        ..spawned(before, runtime_available)
    })
}

/// Whether a delivery is the one for an envelope: to the webhook, with its token
/// and the envelope's payload.
pub open spec fn delivery_for(
    webhook: Webhook,
    e: EnvelopeView,
    delivery: WebhookDelivery,
) -> bool {
    &&& delivery.url@ == webhook.url@
    &&& text::optional(delivery.token) == text::optional(webhook.token)
    &&& json::json_text(delivery.payload) == json::object_text(envelope::webhook_members(e))
}

/// Whether delivering the envelope `e` comes to `result`, starts `delivery` and
/// turns `before` into `after`: the result is that of the append, a delivery is
/// started where there is a webhook with a free slot, and it takes that slot.
pub open spec fn delivers(
    before: OutboxInner,
    e: EnvelopeView,
    result: Result<(), OutboxError>,
    delivery: Option<WebhookDelivery>,
    after: OutboxInner,
) -> bool {
    &&& append::reports_line(e, result)
    &&& delivery is Some <==> before.webhook is Some && before.webhook_busy < WEBHOOK_MAX_IN_FLIGHT
    &&& delivery is Some ==> delivery_for(before.webhook->0, e, delivery->0)
    &&& after == (OutboxInner {
        webhook_busy: if delivery is Some {
            (before.webhook_busy + 1) as usize
        } else {
            before.webhook_busy
        },
        ..before
    })
}

impl OutboxInner {
    /// The writer holds the receiving end while it works; what is not tried yet
    /// is the end of what was accepted, in order; no more deliveries run than
    /// there are slots.
    pub open spec fn wf(&self) -> bool {
        &&& self.delivering ==> self.receiver == Receiver::Taken || self.receiver == Receiver::Lost
        &&& self.writer_spawned <==> self.receiver != Receiver::Waiting
        &&& self.receiver == Receiver::Finished ==> !self.open && self.queue@.len() == 0
        &&& self.receipt_taken ==> self.writer_spawned
        &&& self.accepted@.len() == self.attempted@ + self.pending()
        &&& self.queue@ == self.accepted@.skip(self.accepted@.len() - self.queue@.len())
        &&& self.appended <= self.attempted@
        &&& self.webhook_busy <= WEBHOOK_MAX_IN_FLIGHT
    }

    /// How many accepted events have not been tried yet.
    pub open spec fn pending(&self) -> nat {
        self.queue@.len() + if self.delivering {
            1nat
        } else {
            0nat
        }
    }

    /// The state of a new outbox.
    pub fn new(path: String, webhook: Option<Webhook>) -> (inner: Self)
        ensures
            inner.wf(),
            inner.path == path,
            inner.webhook == webhook,
            inner.open,
            inner.queue@.len() == 0,
            !inner.delivering,
            inner.receiver == Receiver::Waiting,
            !inner.receipt_taken,
            inner.appended == 0,
            inner.webhook_busy == 0,
            inner.accepted@.len() == 0,
    {
        assert(Seq::<LifecycleEvent>::empty().skip(0) =~= Seq::empty());
        OutboxInner {
            path,
            webhook,
            open: true,
            queue: Vec::new(),
            delivering: false,
            receiver: Receiver::Waiting,
            writer_spawned: false,
            receipt_taken: false,
            appended: 0,
            webhook_busy: 0,
            accepted: Ghost(Seq::empty()),
            attempted: Ghost(0),
        }
    }

    /// Whether every accepted event has been tried.
    pub fn drained(&self) -> (drained: bool)
        ensures
            drained == (self.pending() == 0),
            drained == (self.queue@.len() == 0 && !self.delivering),
    {
        self.queue.len() == 0 && !self.delivering
    }

    /// Sees to it that the writer runs: it is started at most once, on the first
    /// use with a runtime.
    pub fn ensure_writer_spawned(&mut self, runtime_available: bool) -> (spawn: Spawn)
        requires
            old(self).wf(),
        ensures
            final(self).wf(),
            spawn == spawn_of(*old(self), runtime_available),
            *final(self) == spawned(*old(self), runtime_available),
            old(self).writer_spawned ==> spawn == Spawn::Running,
            !old(self).writer_spawned && !runtime_available ==> spawn == Spawn::NoRuntime,
            !old(self).writer_spawned && runtime_available ==> spawn == Spawn::Start
                && *final(self) == (OutboxInner {
                receiver: Receiver::Taken,
                writer_spawned: true,
                ..*old(self)
            }),
            spawn != Spawn::Start ==> *final(self) == *old(self),
    {
        if self.writer_spawned {
            return Spawn::Running;
        }
        if !runtime_available {
            return Spawn::NoRuntime;
        }
        self.receiver = Receiver::Taken;
        self.writer_spawned = true;
        Spawn::Start
    }

    /// Queues an event behind the others, and sees to it that the writer runs.
    /// A closed queue takes nothing, and neither does one that nothing will ever
    /// drain: its writer is lost, or cannot be started for want of a runtime.
    pub fn enqueue(&mut self, event: LifecycleEvent, runtime_available: bool) -> (result: Result<
        Spawn,
        OutboxError,
    >)
        requires
            old(self).wf(),
        ensures
            final(self).wf(),
            match dropped_for(*old(self), runtime_available) {
                Some(error) => result == Err::<Spawn, OutboxError>(error) && *final(self)
                    == *old(self),
                None => result == Ok::<Spawn, OutboxError>(
                    spawn_of(*old(self), runtime_available),
                ) && enqueues(*old(self), event, runtime_available, *final(self)),
            },
            !old(self).open ==> result == Err::<Spawn, OutboxError>(OutboxError::Closed),
            old(self).open && old(self).receiver == Receiver::Lost ==> result == Err::<
                Spawn,
                OutboxError,
            >(OutboxError::WriterGone),
            old(self).open && !old(self).writer_spawned && !runtime_available ==> result == Err::<
                Spawn,
                OutboxError,
            >(OutboxError::NoRuntime),
            old(self).open && old(self).writer_spawned && old(self).receiver != Receiver::Lost
                ==> result == Ok::<Spawn, OutboxError>(Spawn::Running),
            old(self).open && !old(self).writer_spawned && runtime_available ==> result == Ok::<
                Spawn,
                OutboxError,
            >(Spawn::Start),
            result is Ok ==> {
                &&& final(self).queue@ == old(self).queue@.push(event)
                &&& final(self).accepted@ == old(self).accepted@.push(event)
                &&& final(self).writer_spawned
            },
            result is Err ==> *final(self) == *old(self),
            *final(self) == (OutboxInner {
                queue: final(self).queue,
                accepted: final(self).accepted,
                receiver: final(self).receiver,
                writer_spawned: final(self).writer_spawned,
                ..*old(self)
            }),
    {
        if !self.open {
            return Err(OutboxError::Closed);
        }
        match self.receiver {
            Receiver::Lost => return Err(OutboxError::WriterGone),
            Receiver::Waiting => if !runtime_available {
                return Err(OutboxError::NoRuntime);
            },
            _ => {},
        }
        self.accepted = Ghost(self.accepted@.push(event));
        self.queue.push(event);
        assert(self.queue@ =~= self.accepted@.skip(self.accepted@.len() - self.queue@.len()));
        Ok(self.ensure_writer_spawned(runtime_available))
    }

    /// Closes the queue: nothing more is accepted, and the writer ends once it
    /// has drained what is there.
    pub fn close(&mut self)
        requires
            old(self).wf(),
        ensures
            final(self).wf(),
            *final(self) == (OutboxInner { open: false, ..*old(self) }),
    {
        self.open = false;
    }

    /// What the writer is to do next: take the oldest event, wait, or end. The
    /// caller is the writer, and is done with its last event. Events are taken in
    /// the order in which they were accepted, each one once.
    pub fn next_step(&mut self) -> (step: WriterStep)
        requires
            old(self).wf(),
            old(self).receiver == Receiver::Taken,
            !old(self).delivering,
        ensures
            final(self).wf(),
            final(self).accepted == old(self).accepted,
            match step {
                WriterStep::Deliver(event) => {
                    &&& old(self).queue@.len() > 0
                    &&& event == old(self).queue@[0]
                    &&& event == old(self).accepted@[old(self).attempted@ as int]
                    &&& final(self).queue@ == old(self).queue@.skip(1)
                    &&& final(self).delivering
                    &&& *final(self) == (OutboxInner {
                        queue: final(self).queue,
                        delivering: true,
                        ..*old(self)
                    })
                },
                WriterStep::Wait => old(self).queue@.len() == 0 && old(self).open && *final(self)
                    == *old(self),
                WriterStep::Finish(appended) => {
                    &&& old(self).queue@.len() == 0
                    &&& !old(self).open
                    &&& appended == old(self).appended
                    &&& *final(self) == (OutboxInner { receiver: Receiver::Finished, ..*old(self) })
                },
            },
    {
        if self.queue.len() > 0 {
            let event = self.queue.remove(0);
            self.delivering = true;
            assert(self.queue@ =~= old(self).queue@.skip(1));
            assert(self.queue@ =~= self.accepted@.skip(self.accepted@.len() - self.queue@.len()));
            WriterStep::Deliver(event)
        } else if self.open {
            WriterStep::Wait
        } else {
            self.receiver = Receiver::Finished;
            WriterStep::Finish(self.appended)
        }
    }

    /// Takes note that the writer is done with its event, and whether it was
    /// appended.
    pub fn finish_delivery(&mut self, landed: bool)
        requires
            old(self).wf(),
            old(self).delivering,
        ensures
            final(self).wf(),
            final(self).attempted@ == old(self).attempted@ + 1,
            landed && old(self).appended < u64::MAX ==> final(self).appended == old(self).appended
                + 1,
            !landed || old(self).appended == u64::MAX ==> final(self).appended
                == old(self).appended,
            *final(self) == (OutboxInner {
                delivering: false,
                appended: if landed {
                    one_more(old(self).appended)
                } else {
                    old(self).appended
                },
                attempted: final(self).attempted,
                ..*old(self)
            }),
    {
        self.delivering = false;
        self.attempted = Ghost(self.attempted@ + 1);
        if landed {
            self.appended = self.appended.saturating_add(1);
        }
    }

    /// Asks for a slot to post to the webhook from; there is none while too many
    /// deliveries are under way.
    pub fn fan_out_webhook(&mut self) -> (granted: bool)
        requires
            old(self).wf(),
        ensures
            final(self).wf(),
            granted == (old(self).webhook_busy < WEBHOOK_MAX_IN_FLIGHT),
            granted == (old(self).webhook_busy < 4),
            *final(self) == (OutboxInner {
                webhook_busy: if granted {
                    (old(self).webhook_busy + 1) as usize
                } else {
                    old(self).webhook_busy
                },
                ..*old(self)
            }),
    {
        if self.webhook_busy < WEBHOOK_MAX_IN_FLIGHT {
            self.webhook_busy = self.webhook_busy + 1;
            true
        } else {
            false
        }
    }

    /// Gives back the slot of a webhook delivery that has ended.
    pub fn release_webhook(&mut self)
        requires
            old(self).wf(),
            old(self).webhook_busy > 0,
        ensures
            final(self).wf(),
            *final(self) == (OutboxInner {
                webhook_busy: (old(self).webhook_busy - 1) as usize,
                ..*old(self)
            }),
    {
        self.webhook_busy = self.webhook_busy - 1;
    }

    /// Takes the right to the writer's receipt for a flush; there is one as long
    /// as a writer was started and no flush has taken it.
    pub fn take_receipt(&mut self) -> (held: bool)
        requires
            old(self).wf(),
        ensures
            final(self).wf(),
            held == (old(self).writer_spawned && !old(self).receipt_taken),
            *final(self) == (OutboxInner {
                receipt_taken: old(self).writer_spawned,
                ..*old(self)
            }),
    {
        let held = self.writer_spawned && !self.receipt_taken;
        self.receipt_taken = self.writer_spawned;
        held
    }

    /// The writer's receipt, for a flush that holds the right to it.
    pub fn read_receipt(&self, held: bool) -> (receipt: Receipt)
        ensures
            receipt == receipt_of(*self, held),
            receipt == Receipt::Absent <==> !held,
            receipt == Receipt::Ready <==> held && self.receiver == Receiver::Finished,
            receipt == Receipt::Lost <==> held && self.receiver == Receiver::Lost,
    {
        if !held {
            return Receipt::Absent;
        }
        match self.receiver {
            Receiver::Finished => Receipt::Ready,
            Receiver::Lost => Receipt::Lost,
            _ => Receipt::Empty,
        }
    }

    /// Takes note that the writer was lost with its runtime. What it left in the
    /// queue will never be drained.
    pub fn writer_lost(&mut self)
        requires
            old(self).wf(),
            old(self).receiver == Receiver::Taken,
        ensures
            final(self).wf(),
            *final(self) == (OutboxInner { receiver: Receiver::Lost, ..*old(self) }),
    {
        self.receiver = Receiver::Lost;
    }

    /// Appends one event to the file and prepares its webhook delivery, if a
    /// webhook is configured and has a free slot. The delivery does not depend on
    /// whether the line was accepted.
    pub fn deliver(&mut self, file: &mut OutboxFile, event: LifecycleEvent) -> (outcome: (
        Result<(), OutboxError>,
        Option<WebhookDelivery>,
    ))
        requires
            old(self).wf(),
            old(file).wf(),
            old(file).covers_window(),
        ensures
            final(self).wf(),
            match append::recovery(old(file)@, old(file).whole()).next {
                Ok(_) => exists|e: EnvelopeView| #[trigger]
                    append::appends(
                        old(file)@,
                        old(file).whole(),
                        event@,
                        e,
                        final(file)@,
                    ) && delivers(*old(self), e, outcome.0, outcome.1, *final(self)),
                Err(error) => {
                    &&& outcome.0 == Err::<(), OutboxError>(error)
                    &&& outcome.1 is None
                    &&& final(file)@ == old(file)@.take(
                        append::recovery(old(file)@, old(file).whole()).keep,
                    )
                    &&& *final(self) == *old(self)
                },
            },
            final(file).wf(),
            final(file).settles_as(*old(file)),
            final(file).settled == old(file).settled_within(
                append::recovery(old(file)@, old(file).whole()).keep,
            ),
            outcome.1 is Some ==> {
                &&& old(self).webhook is Some
                &&& old(self).webhook_busy < 4
                &&& outcome.1->0.url@ == old(self).webhook->0.url@
                &&& outcome.1->0.token is Some <==> old(self).webhook->0.token is Some
                &&& outcome.1->0.token is Some ==> outcome.1->0.token->0@
                    == old(self).webhook->0.token->0@
                &&& final(self).webhook_busy == old(self).webhook_busy + 1
            },
            outcome.1 is None ==> final(self).webhook_busy == old(self).webhook_busy,
            *final(self) == (OutboxInner { webhook_busy: final(self).webhook_busy, ..*old(self) }),
    {
        let (envelope, append_result) = match append::append_event_under_lock(file, event) {
            Ok(appended) => appended,
            Err(error) => return (Err(error), None),
        };
        assert(append::appends(
            old(file)@,
            old(file).whole(),
            event@,
            envelope@,
            file@,
        ));
        let delivery = match &self.webhook {
            Some(webhook) => {
                let delivery = WebhookDelivery {
                    url: webhook.url.clone(),
                    token: webhook.token.clone(),
                    payload: envelope::webhook_payload(&envelope),
                };
                if self.fan_out_webhook() {
                    Some(delivery)
                } else {
                    None
                }
            },
            None => None,
        };
        (append_result, delivery)
    }
}

/// Once an outbox has drained, every event it ever accepted has been tried, and
/// no more were appended than were tried.
pub proof fn law_drained_means_all_tried(inner: OutboxInner)
    requires
        inner.wf(),
        inner.pending() == 0,
    ensures
        inner.attempted@ == inner.accepted@.len(),
        inner.appended <= inner.accepted@.len(),
{
}

/// An event is dropped exactly where the queue is closed or nothing would ever
/// drain it: the writer is lost, or was never started and cannot be.
pub proof fn law_events_are_dropped_only_for_cause(before: OutboxInner, runtime_available: bool)
    requires
        before.wf(),
    ensures
        dropped_for(before, runtime_available) is None <==> before.open && before.receiver
            != Receiver::Lost && (before.writer_spawned || runtime_available),
        !before.open ==> dropped_for(before, runtime_available) == Some(OutboxError::Closed),
        before.open && before.receiver == Receiver::Lost ==> dropped_for(before, runtime_available)
            == Some(OutboxError::WriterGone),
        before.open && !before.writer_spawned && !runtime_available ==> dropped_for(
            before,
            runtime_available,
        ) == Some(OutboxError::NoRuntime),
{
}

/// An event that is queued stands behind all others, with the writer running, and
/// nothing else changes.
pub proof fn law_queued_events_stand_last(
    before: OutboxInner,
    event: LifecycleEvent,
    runtime_available: bool,
    after: OutboxInner,
)
    requires
        enqueues(before, event, runtime_available, after),
    ensures
        after.queue@ == before.queue@.push(event),
        after.accepted@ == before.accepted@.push(event),
        before.writer_spawned || runtime_available ==> after.writer_spawned,
        after.webhook == before.webhook,
        after.path == before.path,
        after.open == before.open,
        after.delivering == before.delivering,
        after.appended == before.appended,
        after.webhook_busy == before.webhook_busy,
        after.attempted == before.attempted,
{
}

/// A flush that may read the writer's receipt sees whether the writer has ended;
/// one that may not has none to wait for.
pub proof fn law_receipts_tell_how_the_writer_ended(inner: OutboxInner, held: bool)
    ensures
        receipt_of(inner, held) == Receipt::Absent <==> !held,
        receipt_of(inner, held) == Receipt::Ready <==> held && inner.receiver == Receiver::Finished,
        receipt_of(inner, held) == Receipt::Lost <==> held && inner.receiver == Receiver::Lost,
        receipt_of(inner, held) == Receipt::Empty <==> held && (inner.receiver == Receiver::Waiting
            || inner.receiver == Receiver::Taken),
{
}

} // verus!
