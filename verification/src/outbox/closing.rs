//! What the reconciliations at boot and on a signal come to: the laws that lead
//! from an outbox file with open turns to one without.
use vstd::prelude::*;

use crate::outbox::append::OutboxFile;
use crate::outbox::counting;
use crate::outbox::envelope::{EnvelopeView, EventView};
use crate::outbox::error::OutboxError;
use crate::outbox::handle;
use crate::outbox::reconcile;
use crate::outbox::signal;
use crate::outbox::signal::{CleanupAction, CleanupEvent, CleanupState, SignalFlush};

verus! {

/// Whether a file has become another by one more line for each of `events`, which
/// end open turns of the thread for the reason given, no turn twice.
pub open spec fn gains_ends(
    before: Seq<u8>,
    thread: Seq<char>,
    reason: Seq<char>,
    events: Seq<EventView>,
    after: Seq<u8>,
) -> bool {
    let es = reconcile::envelopes_on(reconcile::lines_of(before));
    let all = reconcile::envelopes_on(reconcile::lines_of(after));
    &&& all.len() == es.len() + events.len()
    &&& es.is_prefix_of(all)
    &&& forall|i: int|
        0 <= i < events.len() ==> counting::says(all[es.len() + i], #[trigger] events[i])
            && counting::ends_open_turn(events[i], es, thread, reason)
    &&& forall|i: int, j: int|
        0 <= i < j < events.len() ==> (#[trigger] events[i]).turn_id != (
        #[trigger] events[j]).turn_id
}

/// Whether no turn of the thread is open in a file that has become another, and
/// starts and ends count the same for every other turn and every other thread.
pub open spec fn all_closed(before: Seq<u8>, thread: Seq<char>, after: Seq<u8>) -> bool {
    let es = reconcile::envelopes_on(reconcile::lines_of(before));
    let all = reconcile::envelopes_on(reconcile::lines_of(after));
    forall|any_thread: Seq<char>, turn: Seq<char>|
        {
            &&& #[trigger] counting::mentions(all, any_thread, turn, "turn_start"@)
                == counting::mentions(es, any_thread, turn, "turn_start"@)
            &&& counting::mentions(all, any_thread, turn, "turn_end"@) == counting::mentions(
                es,
                any_thread,
                turn,
                "turn_end"@,
            ) + if any_thread == thread && counting::open_turn(es, thread, turn) {
                1nat
            } else {
                0nat
            }
        }
}

proof fn lemma_gains_of(
    before: Seq<u8>,
    thread: Seq<char>,
    reason: Seq<char>,
    repairs: Seq<EventView>,
    written: Seq<EnvelopeView>,
    after: Seq<u8>,
)
    requires
        reconcile::envelopes_on(reconcile::lines_of(after)) == reconcile::envelopes_on(
            reconcile::lines_of(before),
        ) + written,
        written.len() <= repairs.len(),
        forall|i: int|
            0 <= i < written.len() ==> counting::says(#[trigger] written[i], repairs[i])
                && counting::ends_open_turn(
                repairs[i],
                reconcile::envelopes_on(reconcile::lines_of(before)),
                thread,
                reason,
            ),
        forall|i: int, j: int|
            0 <= i < j < repairs.len() ==> (#[trigger] repairs[i]).turn_id != (
            #[trigger] repairs[j]).turn_id,
    ensures
        gains_ends(before, thread, reason, repairs.take(written.len() as int), after),
{
    let es = reconcile::envelopes_on(reconcile::lines_of(before));
    let all = es + written;
    let events = repairs.take(written.len() as int);
    assert forall|i: int| 0 <= i < events.len() implies counting::says(
        all[es.len() + i],
        #[trigger] events[i],
    ) && counting::ends_open_turn(events[i], es, thread, reason) by {
        assert(all[es.len() + i] == written[i]);
    }
    assert forall|i: int, j: int| 0 <= i < j < events.len() implies (#[trigger] events[i]).turn_id
        != (#[trigger] events[j]).turn_id by {
        assert(repairs[i].turn_id != repairs[j].turn_id);
    }
}

proof fn lemma_gains(
    before: Seq<u8>,
    thread: Seq<char>,
    reason: Seq<char>,
    considered: int,
    written: Seq<EnvelopeView>,
    result: Result<usize, OutboxError>,
    after: Seq<u8>,
)
    requires
        0 <= considered <= reconcile::turn_count(before, thread),
        reconcile::reconciles(
            before,
            after,
            reconcile::repairs(before, thread, reason, considered),
            written,
            result,
        ),
    ensures
        exists|events: Seq<EventView>| #[trigger]
            gains_ends(before, thread, reason, events, after) && (result matches Ok(count)
                ==> count == events.len()),
{
    let repairs = reconcile::repairs(before, thread, reason, considered);
    counting::law_repairs_end_open_turns(before, thread, reason, considered);
    counting::law_reconciliation_only_ends_open_turns(
        before,
        thread,
        reason,
        considered,
        written,
        result,
        after,
    );
    lemma_gains_of(before, thread, reason, repairs, written, after);
    let events = repairs.take(written.len() as int);
    assert(events.len() == written.len());
    assert(gains_ends(before, thread, reason, events, after));
}

proof fn lemma_closed(
    before: Seq<u8>,
    thread: Seq<char>,
    reason: Seq<char>,
    written: Seq<EnvelopeView>,
    count: usize,
    after: Seq<u8>,
)
    requires
        reconcile::reconciles(
            before,
            after,
            reconcile::all_repairs(before, thread, reason),
            written,
            Ok(count),
        ),
    ensures
        all_closed(before, thread, after),
{
    let all = reconcile::envelopes_on(reconcile::lines_of(after));
    let es = reconcile::envelopes_on(reconcile::lines_of(before));
    assert forall|any_thread: Seq<char>, turn: Seq<char>|
        {
            &&& #[trigger] counting::mentions(all, any_thread, turn, "turn_start"@)
                == counting::mentions(es, any_thread, turn, "turn_start"@)
            &&& counting::mentions(all, any_thread, turn, "turn_end"@) == counting::mentions(
                es,
                any_thread,
                turn,
                "turn_end"@,
            ) + if any_thread == thread && counting::open_turn(es, thread, turn) {
                1nat
            } else {
                0nat
            }
        } by {
        counting::law_reconciliation_closes_open_turns(
            before,
            thread,
            reason,
            written,
            count,
            after,
            any_thread,
            turn,
        );
    }
}

/// The reconciliation at boot does nothing for a disabled outbox, an empty thread
/// id or a missing file. Else it adds the ends of open turns and nothing more, as
/// many as it returns; and where it is not refused an append, no turn of the
/// thread stays open.
pub proof fn law_boot_closes_open_turns(
    enabled: bool,
    before: OutboxFile,
    file_exists: bool,
    thread: Seq<char>,
    reason: Seq<char>,
    result: Result<usize, OutboxError>,
    after: OutboxFile,
)
    requires
        handle::boot_reconciles(enabled, before, file_exists, thread, reason, result, after),
    ensures
        !enabled || thread.len() == 0 || !file_exists ==> result == Ok::<usize, OutboxError>(0)
            && after == before,
        enabled && thread.len() > 0 && file_exists ==> exists|events: Seq<EventView>| #[trigger]
            gains_ends(before@, thread, reason, events, after@) && (result matches Ok(count)
                ==> count == events.len()),
        enabled && thread.len() > 0 && file_exists && result is Ok ==> all_closed(
            before@,
            thread,
            after@,
        ),
{
    if enabled && thread.len() > 0 && file_exists {
        let written = choose|written: Seq<EnvelopeView>| #[trigger]
            reconcile::reconciles(
                before@,
                after@,
                reconcile::all_repairs(before@, thread, reason),
                written,
                result,
            );
        let all = reconcile::turn_count(before@, thread) as int;
        lemma_gains(before@, thread, reason, all, written, result, after@);
        if result is Ok {
            lemma_closed(before@, thread, reason, written, result->Ok_0, after@);
        }
    }
}

/// The reconciliation on a signal does nothing for a disabled outbox, an empty
/// thread id or a missing file, and fails without the lock. Else it adds the ends
/// of open turns and nothing more, each with the signal as its reason, as many as
/// it returns: none once the deadline has passed, and one for every open turn
/// where the deadline never passes and no append is refused.
pub proof fn law_signal_closes_open_turns<F: Fn() -> bool>(
    enabled: bool,
    before: OutboxFile,
    file_exists: bool,
    locked: bool,
    thread: Seq<char>,
    name: Seq<char>,
    deadline_passed: F,
    result: Result<usize, OutboxError>,
    after: OutboxFile,
)
    requires
        handle::bounded_reconciles(
            enabled,
            before,
            file_exists,
            locked,
            thread,
            signal::signal_reason(name),
            deadline_passed,
            result,
            after,
        ),
    ensures
        !enabled || thread.len() == 0 ==> result == Ok::<usize, OutboxError>(0) && after == before,
        enabled && thread.len() > 0 && !locked ==> result == Err::<usize, OutboxError>(
            OutboxError::LockTimeout,
        ) && after == before,
        enabled && thread.len() > 0 && locked && !file_exists ==> result == Ok::<
            usize,
            OutboxError,
        >(0) && after == before,
        enabled && thread.len() > 0 && locked && file_exists ==> exists|
            events: Seq<EventView>,
        | #[trigger]
            gains_ends(before@, thread, "signal:"@ + name, events, after@) && (result matches Ok(
                count,
            ) ==> count == events.len()),
        enabled && thread.len() > 0 && locked && file_exists && result is Ok && (forall|
            passed: bool,
        | #[trigger]
            deadline_passed.ensures((), passed) ==> !passed) ==> all_closed(
            before@,
            thread,
            after@,
        ),
        enabled && thread.len() > 0 && locked && file_exists && (forall|passed: bool| #[trigger]
            deadline_passed.ensures((), passed) ==> passed) ==> result == Ok::<usize, OutboxError>(
            0,
        ) && after == before,
{
    if enabled && thread.len() > 0 && locked && file_exists {
        let reason = signal::signal_reason(name);
        assert(reason == "signal:"@ + name);
        let all = reconcile::turn_count(before@, thread) as int;
        let (considered, written) = choose|considered: int, written: Seq<EnvelopeView>| #[trigger]
            reconcile::reconciles(
                before@,
                after@,
                reconcile::repairs(before@, thread, reason, considered),
                written,
                result,
            ) && 0 <= considered <= all && (reconcile::never_passes(deadline_passed) ==> considered
                == all);
        lemma_gains(before@, thread, reason, considered, written, result, after@);
        if (forall|passed: bool| #[trigger] deadline_passed.ensures((), passed) ==> !passed)
            && result is Ok {
            assert(reconcile::never_passes(deadline_passed));
            lemma_closed(before@, thread, reason, written, result->Ok_0, after@);
        }
    }
}

/// What is told of the flush on a signal is what its reconciliation came to, and
/// an exit code of 128 and a signal's number names that signal.
pub proof fn law_signals_are_told_by_number(
    exit_code: i32,
    result: Result<usize, OutboxError>,
)
    ensures
        exit_code == 128 + 1 ==> signal::signal_name_of(exit_code) == "SIGHUP"@,
        exit_code == 128 + 2 ==> signal::signal_name_of(exit_code) == "SIGINT"@,
        exit_code == 128 + 15 ==> signal::signal_name_of(exit_code) == "SIGTERM"@,
        exit_code != 129 && exit_code != 130 && exit_code != 143 ==> signal::signal_name_of(
            exit_code,
        ) == "SIGNAL"@,
        result matches Ok(count) ==> signal::flush_of(result) == SignalFlush::Reconciled(count),
        result matches Err(error) ==> signal::flush_of(result) == SignalFlush::Failed(error),
{
}

/// Whatever events follow a first signal, the process exits with that signal's
/// code: the code never changes, the cleanup is started once, and nothing but a
/// signal starts it.
pub proof fn law_first_signal_decides_the_exit_code(
    state: CleanupState,
    event: CleanupEvent,
    code: i32,
)
    ensures
        state == CleanupState::Cleaning(code) ==> signal::state_after(state, event)
            == CleanupState::Exiting(code),
        state == CleanupState::Exiting(code) ==> signal::state_after(state, event) == state,
        state == CleanupState::Exiting(code) ==> signal::action_for(state, event)
            == CleanupAction::Exit(code),
        state == CleanupState::Cleaning(code) && event == CleanupEvent::CleanedUp
            ==> signal::action_for(state, event) == CleanupAction::Exit(code),
        state == CleanupState::Cleaning(code) && event is Signal ==> signal::action_for(
            state,
            event,
        ) == CleanupAction::RestoreAndExit(code),
        signal::action_for(state, event) == CleanupAction::StartCleanup(code) <==> state
            == CleanupState::Armed && event == CleanupEvent::Signal(code),
        signal::state_after(state, event) == CleanupState::Cleaning(code) <==> state
            == CleanupState::Armed && event == CleanupEvent::Signal(code),
        state == CleanupState::Armed && event == CleanupEvent::CleanedUp ==> signal::action_for(
            state,
            event,
        ) == CleanupAction::Ignore && signal::state_after(state, event) == state,
{
}

} // verus!
