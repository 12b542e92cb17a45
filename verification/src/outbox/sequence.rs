//! What several appends in a row come to: the laws of numbering, and of webhook
//! deliveries beside it.
use vstd::prelude::*;

use crate::outbox::append;
use crate::outbox::durability;
use crate::outbox::envelope;
use crate::outbox::envelope::{EnvelopeView, EventView, LifecycleEvent};
use crate::outbox::error::OutboxError;
use crate::outbox::pairing;
use crate::outbox::queue;
use crate::outbox::queue::{OutboxInner, WebhookDelivery, WEBHOOK_MAX_IN_FLIGHT};
use crate::outbox::reconcile;

verus! {

/// Whether the file went through `files` as `events` were appended one after the
/// other, by whichever writers, as `envelopes`: every line was appended, and can
/// be read back.
pub open spec fn appends_in_turn(
    files: Seq<Seq<u8>>,
    events: Seq<EventView>,
    envelopes: Seq<EnvelopeView>,
) -> bool {
    &&& files.len() == events.len() + 1
    &&& envelopes.len() == events.len()
    &&& forall|i: int|
        0 <= i < events.len() ==> append::appends(
            files[i],
            true,
            events[i],
            #[trigger] envelopes[i],
            files[i + 1],
        ) && append::fits(envelopes[i]) && append::readable(envelopes[i])
}

/// The lines of envelopes, without their line feeds.
pub open spec fn lines_for(envelopes: Seq<EnvelopeView>) -> Seq<Seq<u8>> {
    envelopes.map_values(
        |e: EnvelopeView| vstd::utf8::encode_utf8(envelope::envelope_line(e)),
    )
}

/// What one append leaves: the new line behind the others, with nothing for the
/// next recovery to cut off and its number to continue from.
proof fn lemma_one_append(file: Seq<u8>, event: EventView, e: EnvelopeView, after: Seq<u8>)
    requires
        append::appends(file, true, event, e, after),
        append::fits(e),
        append::readable(e),
    ensures
        append::recovery(after, true) == (append::Recovery {
            keep: after.len() as int,
            next: Ok(append::next_seq(e.seq)),
        }),
        e.seq == append::recovery(file, true).next->Ok_0,
        after == file.take(append::recovery(file, true).keep) + append::record(e),
        reconcile::lines_of(after) == reconcile::lines_of(file).push(
            vstd::utf8::encode_utf8(envelope::envelope_line(e)),
        ),
        reconcile::envelopes_on(reconcile::lines_of(after)) == reconcile::envelopes_on(
            reconcile::lines_of(file),
        ).push(e),
{
    let kept = file.take(append::recovery(file, true).keep);
    durability::law_recovery_keeps_complete_lines(file, true);
    durability::law_recovery_continues_after_append(kept, e, Seq::empty(), true);
    assert(kept + append::record(e) + Seq::<u8>::empty() =~= after);
    pairing::law_append_adds_one_envelope(file, e);
}

proof fn lemma_numbered(
    files: Seq<Seq<u8>>,
    events: Seq<EventView>,
    envelopes: Seq<EnvelopeView>,
    last: nat,
    n: nat,
)
    requires
        appends_in_turn(files, events, envelopes),
        append::recovery(files[0], true).next == Ok::<u64, OutboxError>((last + 1) as u64),
        last < u64::MAX,
        last + events.len() <= u64::MAX,
        n <= events.len(),
    ensures
        last + n < u64::MAX ==> append::recovery(files[n as int], true).next == Ok::<
            u64,
            OutboxError,
        >((last + n + 1) as u64),
        forall|i: int| 0 <= i < n ==> (#[trigger] envelopes[i]).seq == last + i + 1,
    decreases n,
{
    if n > 0 {
        let m = n - 1;
        lemma_numbered(files, events, envelopes, last, m as nat);
        let e = envelopes[m];
        assert(append::appends(files[m], true, events[m], e, files[m + 1]));
        lemma_one_append(files[m], events[m], e, files[m + 1]);
    }
}

proof fn lemma_lines_added(
    files: Seq<Seq<u8>>,
    events: Seq<EventView>,
    envelopes: Seq<EnvelopeView>,
    n: nat,
)
    requires
        appends_in_turn(files, events, envelopes),
        n <= events.len(),
    ensures
        reconcile::lines_of(files[n as int]) == reconcile::lines_of(files[0]) + lines_for(
            envelopes.take(n as int),
        ),
        reconcile::envelopes_on(reconcile::lines_of(files[n as int])) == reconcile::envelopes_on(
            reconcile::lines_of(files[0]),
        ) + envelopes.take(n as int),
        n > 0 ==> append::recovery(files[n as int], true).keep == files[n as int].len(),
        n > 0 ==> files[n as int] == files[0].take(append::recovery(files[0], true).keep)
            + durability::history(envelopes.take(n as int)),
    decreases n,
{
    let lines = reconcile::lines_of(files[0]);
    let es = reconcile::envelopes_on(lines);
    if n == 0 {
        assert(lines + lines_for(envelopes.take(0)) =~= lines);
        assert(es + envelopes.take(0) =~= es);
    } else {
        let m = n - 1;
        lemma_lines_added(files, events, envelopes, m as nat);
        let e = envelopes[m];
        assert(append::appends(files[m], true, events[m], e, files[m + 1]));
        lemma_one_append(files[m], events[m], e, files[m + 1]);
        let fewer = envelopes.take(m);
        let more = envelopes.take(n as int);
        let line = vstd::utf8::encode_utf8(envelope::envelope_line(e));
        assert(more.drop_last() =~= fewer);
        assert(lines_for(more) =~= lines_for(fewer).push(line));
        assert(lines + lines_for(more) =~= (lines + lines_for(fewer)).push(line));
        assert(es + more =~= (es + fewer).push(e));
        let first = files[0].take(append::recovery(files[0], true).keep);
        assert(more.last() == e);
        assert(durability::history(more) == durability::history(fewer) + append::record(e));
        if m == 0 {
            assert(durability::history(fewer) =~= Seq::empty());
            assert(first + durability::history(more) =~= first + append::record(e));
        } else {
            assert(files[m].take(files[m].len() as int) =~= files[m]);
            assert(first + durability::history(more) =~= files[m] + append::record(e));
        }
    }
}

/// Events appended to a file whose last number is `last` get the numbers that
/// follow, in order and without a gap. The file gains one line for each, which is
/// read as its envelope; no line is lost and none stands twice. It does not
/// matter who appends, as long as the lock lets one at a time. The numbers end at
/// the largest there is.
pub proof fn law_appends_are_numbered_in_turn(
    files: Seq<Seq<u8>>,
    events: Seq<EventView>,
    envelopes: Seq<EnvelopeView>,
    last: nat,
)
    requires
        appends_in_turn(files, events, envelopes),
        append::recovery(files[0], true).next == Ok::<u64, OutboxError>((last + 1) as u64),
        last < u64::MAX,
        last + events.len() <= u64::MAX,
    ensures
        forall|i: int|
            0 <= i < envelopes.len() ==> (#[trigger] envelopes[i]).seq == last + i + 1
                && append::carries(envelopes[i], (last + i + 1) as u64, events[i]),
        reconcile::lines_of(files.last()) == reconcile::lines_of(files[0]) + lines_for(envelopes),
        reconcile::envelopes_on(reconcile::lines_of(files.last())) == reconcile::envelopes_on(
            reconcile::lines_of(files[0]),
        ) + envelopes,
        events.len() > 0 ==> files.last() == files[0].take(append::recovery(files[0], true).keep)
            + durability::history(envelopes),
{
    let n = events.len();
    lemma_numbered(files, events, envelopes, last, n);
    lemma_lines_added(files, events, envelopes, n);
    assert(envelopes.take(n as int) =~= envelopes);
    assert forall|i: int| 0 <= i < envelopes.len() implies append::carries(
        #[trigger] envelopes[i],
        (last + i + 1) as u64,
        events[i],
    ) by {
        assert(append::appends(files[i], true, events[i], envelopes[i], files[i + 1]));
        lemma_numbered(files, events, envelopes, last, i as nat);
    }
}

/// Whether the writer took `taken` out of the queue one after the other, from the
/// outbox as it stood in `states`, while `accepted` is all that was accepted by
/// then. Each time it takes the oldest event that was not tried.
pub open spec fn takes_in_turn(
    states: Seq<OutboxInner>,
    taken: Seq<LifecycleEvent>,
    accepted: Seq<LifecycleEvent>,
) -> bool {
    &&& states.len() == taken.len()
    &&& forall|i: int|
        0 <= i < taken.len() ==> {
            &&& (#[trigger] states[i]).accepted@.is_prefix_of(accepted)
            &&& states[i].attempted@ == states[0].attempted@ + i
            &&& states[i].attempted@ < states[i].accepted@.len()
            &&& taken[i] == states[i].accepted@[states[i].attempted@ as int]
        }
}

/// Queued events become lines in the order in which they were emitted: the writer
/// of an outbox writes the accepted events one after the other, under the numbers
/// that follow.
pub proof fn law_queue_order_is_file_order(
    states: Seq<OutboxInner>,
    taken: Seq<LifecycleEvent>,
    accepted: Seq<LifecycleEvent>,
    files: Seq<Seq<u8>>,
    envelopes: Seq<EnvelopeView>,
    last: nat,
)
    requires
        takes_in_turn(states, taken, accepted),
        appends_in_turn(files, taken.map_values(|event: LifecycleEvent| event@), envelopes),
        append::recovery(files[0], true).next == Ok::<u64, OutboxError>((last + 1) as u64),
        last < u64::MAX,
        last + taken.len() <= u64::MAX,
    ensures
        forall|i: int|
            0 <= i < envelopes.len() ==> append::carries(
                #[trigger] envelopes[i],
                (last + i + 1) as u64,
                accepted[states[0].attempted@ + i]@,
            ),
        reconcile::lines_of(files.last()) == reconcile::lines_of(files[0]) + lines_for(envelopes),
        reconcile::envelopes_on(reconcile::lines_of(files.last())) == reconcile::envelopes_on(
            reconcile::lines_of(files[0]),
        ) + envelopes,
{
    let events = taken.map_values(|event: LifecycleEvent| event@);
    law_appends_are_numbered_in_turn(files, events, envelopes, last);
    assert forall|i: int| 0 <= i < envelopes.len() implies append::carries(
        #[trigger] envelopes[i],
        (last + i + 1) as u64,
        accepted[states[0].attempted@ + i]@,
    ) by {
        assert(states[i].accepted@.is_prefix_of(accepted));
        assert(events[i] == taken[i]@);
    }
}

/// Whether a writer delivered `envelopes` one after the other, with these results
/// and webhook deliveries: `before[i]` is the outbox before the delivery of
/// `envelopes[i]` and `after[i]` the one behind it. In between no slot was given
/// back.
pub open spec fn delivers_in_turn(
    before: Seq<OutboxInner>,
    envelopes: Seq<EnvelopeView>,
    results: Seq<Result<(), OutboxError>>,
    deliveries: Seq<Option<WebhookDelivery>>,
    after: Seq<OutboxInner>,
) -> bool {
    &&& before.len() == envelopes.len()
    &&& results.len() == envelopes.len()
    &&& deliveries.len() == envelopes.len()
    &&& after.len() == envelopes.len()
    &&& forall|i: int|
        0 <= i < envelopes.len() ==> queue::delivers(
            before[i],
            envelopes[i],
            results[i],
            #[trigger] deliveries[i],
            after[i],
        )
    &&& forall|i: int|
        0 < i < envelopes.len() ==> (#[trigger] before[i]).webhook == after[i - 1].webhook
            && before[i].webhook_busy == after[i - 1].webhook_busy
}

proof fn lemma_slots_taken(
    before: Seq<OutboxInner>,
    envelopes: Seq<EnvelopeView>,
    results: Seq<Result<(), OutboxError>>,
    deliveries: Seq<Option<WebhookDelivery>>,
    after: Seq<OutboxInner>,
    n: nat,
)
    requires
        delivers_in_turn(before, envelopes, results, deliveries, after),
        n < envelopes.len(),
        before[0].webhook is Some,
        before[0].webhook_busy <= WEBHOOK_MAX_IN_FLIGHT,
    ensures
        before[n as int].webhook == before[0].webhook,
        before[n as int].webhook_busy == if before[0].webhook_busy + n < WEBHOOK_MAX_IN_FLIGHT {
            before[0].webhook_busy + n
        } else {
            WEBHOOK_MAX_IN_FLIGHT as int
        },
    decreases n,
{
    if n > 0 {
        let m = n - 1;
        lemma_slots_taken(before, envelopes, results, deliveries, after, m as nat);
        assert(queue::delivers(before[m], envelopes[m], results[m], deliveries[m], after[m]));
        assert(before[n as int].webhook == after[n - 1].webhook);
    }
}

/// A full webhook backlog drops deliveries, and never a line. While no slot is
/// given back, of the events that are delivered exactly the first ones get a
/// webhook delivery, as many as there were free slots, and the newer ones get
/// none, then or later. All of them are appended, under the numbers that follow.
pub proof fn law_full_backlog_drops_deliveries_not_lines(
    files: Seq<Seq<u8>>,
    events: Seq<EventView>,
    envelopes: Seq<EnvelopeView>,
    last: nat,
    before: Seq<OutboxInner>,
    results: Seq<Result<(), OutboxError>>,
    deliveries: Seq<Option<WebhookDelivery>>,
    after: Seq<OutboxInner>,
)
    requires
        appends_in_turn(files, events, envelopes),
        append::recovery(files[0], true).next == Ok::<u64, OutboxError>((last + 1) as u64),
        last < u64::MAX,
        last + events.len() <= u64::MAX,
        delivers_in_turn(before, envelopes, results, deliveries, after),
        before.len() > 0 ==> before[0].webhook is Some && before[0].webhook_busy
            <= WEBHOOK_MAX_IN_FLIGHT,
    ensures
        forall|i: int|
            0 <= i < envelopes.len() ==> {
                &&& (#[trigger] deliveries[i]) is Some <==> before[0].webhook_busy + i
                    < WEBHOOK_MAX_IN_FLIGHT
                &&& deliveries[i] is Some ==> queue::delivery_for(
                    before[0].webhook->0,
                    envelopes[i],
                    deliveries[i]->0,
                )
                &&& after[i].webhook_busy <= WEBHOOK_MAX_IN_FLIGHT
                &&& results[i] is Ok
                &&& envelopes[i].seq == last + i + 1
                &&& append::carries(envelopes[i], (last + i + 1) as u64, events[i])
            },
        reconcile::lines_of(files.last()) == reconcile::lines_of(files[0]) + lines_for(envelopes),
        reconcile::envelopes_on(reconcile::lines_of(files.last())) == reconcile::envelopes_on(
            reconcile::lines_of(files[0]),
        ) + envelopes,
{
    law_appends_are_numbered_in_turn(files, events, envelopes, last);
    assert forall|i: int| 0 <= i < envelopes.len() implies {
        &&& (#[trigger] deliveries[i]) is Some <==> before[0].webhook_busy + i
            < WEBHOOK_MAX_IN_FLIGHT
        &&& deliveries[i] is Some ==> queue::delivery_for(
            before[0].webhook->0,
            envelopes[i],
            deliveries[i]->0,
        )
        &&& after[i].webhook_busy <= WEBHOOK_MAX_IN_FLIGHT
        &&& results[i] is Ok
        &&& envelopes[i].seq == last + i + 1
        &&& append::carries(envelopes[i], (last + i + 1) as u64, events[i])
    } by {
        lemma_slots_taken(before, envelopes, results, deliveries, after, i as nat);
        assert(queue::delivers(before[i], envelopes[i], results[i], deliveries[i], after[i]));
        assert(append::fits(envelopes[i]));
    }
}

} // verus!
