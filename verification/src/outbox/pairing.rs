//! What reconciliation achieves: the laws of paired turns.
use vstd::prelude::*;

use crate::outbox::append;
use crate::outbox::durability;
use crate::outbox::envelope;
use crate::outbox::envelope::{EnvelopeView, EventView};
use crate::outbox::error::OutboxError;
use crate::outbox::reconcile;
use crate::text;

verus! {

/// Envelopes that end the given turns of a thread, one each.
pub open spec fn end_turns(
    new: Seq<EnvelopeView>,
    thread: Seq<char>,
    turns: Seq<Seq<char>>,
) -> bool {
    &&& new.len() == turns.len()
    &&& forall|i: int|
        0 <= i < new.len() ==> reconcile::ends_turn(#[trigger] new[i], thread, turns[i])
}

pub proof fn lemma_counts_after_ends(
    es: Seq<EnvelopeView>,
    new: Seq<EnvelopeView>,
    thread: Seq<char>,
    turns: Seq<Seq<char>>,
    turn: Seq<char>,
)
    requires
        end_turns(new, thread, turns),
        turns.no_duplicates(),
    ensures
        reconcile::starts(es + new, thread, turn) == reconcile::starts(es, thread, turn),
        reconcile::ends(es + new, thread, turn) == reconcile::ends(es, thread, turn)
            + if turns.contains(turn) {
            1nat
        } else {
            0nat
        },
    decreases new.len(),
{
    if new.len() == 0 {
        assert(es + new =~= es);
        assert(!turns.contains(turn));
    } else {
        let fewer = new.drop_last();
        let fewer_turns = turns.drop_last();
        assert forall|i: int| 0 <= i < fewer.len() implies reconcile::ends_turn(
            #[trigger] fewer[i],
            thread,
            fewer_turns[i],
        ) by {
            assert(fewer[i] == new[i]);
        }
        lemma_counts_after_ends(es, fewer, thread, fewer_turns, turn);
        assert((es + new).drop_last() =~= es + fewer);
        let last = turns[turns.len() - 1];
        assert(reconcile::ends_turn(new[new.len() - 1], thread, last));
        reveal_strlit("turn_start");
        reveal_strlit("turn_end");
        assert(reconcile::TURN_START@.len() != reconcile::TURN_END@.len());
        if turns.contains(turn) {
            let i = choose|i: int| 0 <= i < turns.len() && turns[i] == turn;
            if i < turns.len() - 1 {
                assert(fewer_turns[i] == turn);
                assert(last != turn);
            }
        }
        if fewer_turns.contains(turn) {
            let i = choose|i: int| 0 <= i < fewer_turns.len() && fewer_turns[i] == turn;
            assert(turns[i] == turn);
            assert(last != turn);
        }
        if last == turn {
            assert(turns.contains(turn));
        }
    }
}

pub proof fn lemma_interrupted_among_contains(
    turns: Seq<Seq<char>>,
    es: Seq<EnvelopeView>,
    thread: Seq<char>,
    turn: Seq<char>,
)
    ensures
        reconcile::interrupted_among(turns, es, thread).contains(turn) <==> turns.contains(turn)
            && reconcile::interrupted(es, thread, turn),
    decreases turns.len(),
{
    let found = reconcile::interrupted_among(turns, es, thread);
    if turns.len() > 0 {
        let fewer = turns.drop_last();
        let earlier = reconcile::interrupted_among(fewer, es, thread);
        lemma_interrupted_among_contains(fewer, es, thread, turn);
        assert(turns =~= fewer.push(turns.last()));
        if turns.contains(turn) {
            let i = choose|i: int| 0 <= i < turns.len() && turns[i] == turn;
            if i < fewer.len() {
                assert(fewer[i] == turn);
            }
        }
        if fewer.contains(turn) {
            let i = choose|i: int| 0 <= i < fewer.len() && fewer[i] == turn;
            assert(turns[i] == turn);
        }
        if earlier.contains(turn) {
            let i = choose|i: int| 0 <= i < earlier.len() && earlier[i] == turn;
            assert(found[i] == turn);
        }
        if found.contains(turn) {
            let i = choose|i: int| 0 <= i < found.len() && found[i] == turn;
            if i < earlier.len() {
                assert(earlier[i] == turn);
            }
        }
        if turns.last() == turn && reconcile::interrupted(es, thread, turn) {
            assert(found[found.len() - 1] == turn);
            assert(turns[turns.len() - 1] == turn);
        }
    }
}

pub proof fn lemma_interrupted_among_distinct(
    turns: Seq<Seq<char>>,
    es: Seq<EnvelopeView>,
    thread: Seq<char>,
)
    requires
        turns.no_duplicates(),
    ensures
        reconcile::interrupted_among(turns, es, thread).no_duplicates(),
    decreases turns.len(),
{
    if turns.len() > 0 {
        let fewer = turns.drop_last();
        lemma_interrupted_among_distinct(fewer, es, thread);
        lemma_interrupted_among_contains(fewer, es, thread, turns.last());
        if fewer.contains(turns.last()) {
            let i = choose|i: int| 0 <= i < fewer.len() && fewer[i] == turns.last();
            assert(turns[i] == turns[turns.len() - 1]);
        }
    }
}

/// Once the first `considered` turns of a thread are repaired, a turn is still
/// interrupted exactly when it was and is not one of them. Each repaired turn
/// has one start and one end.
pub proof fn law_repaired_turns_are_paired(
    es: Seq<EnvelopeView>,
    new: Seq<EnvelopeView>,
    thread: Seq<char>,
    considered: int,
    turn: Seq<char>,
)
    requires
        0 <= considered <= reconcile::turns_seen(es, thread).len(),
        end_turns(
            new,
            thread,
            reconcile::interrupted_among(
                reconcile::turns_seen(es, thread).take(considered),
                es,
                thread,
            ),
        ),
    ensures
        reconcile::interrupted(es + new, thread, turn) <==> reconcile::interrupted(es, thread, turn)
            && !reconcile::turns_seen(es, thread).take(considered).contains(turn),
        reconcile::interrupted(es, thread, turn) && reconcile::turns_seen(es, thread).take(
            considered,
        ).contains(turn) ==> reconcile::starts(es + new, thread, turn) == 1 && reconcile::ends(
            es + new,
            thread,
            turn,
        ) == 1,
{
    let seen = reconcile::turns_seen(es, thread);
    let turns = reconcile::interrupted_among(seen.take(considered), es, thread);
    reconcile::lemma_turns_seen_distinct(es, thread);
    lemma_interrupted_among_distinct(seen.take(considered), es, thread);
    lemma_interrupted_among_contains(seen.take(considered), es, thread, turn);
    lemma_counts_after_ends(es, new, thread, turns, turn);
}

/// Repairing a thread's turns changes nothing of any other thread's turns:
/// neither their counts nor their workspaces nor which were seen.
pub proof fn law_other_threads_are_untouched(
    es: Seq<EnvelopeView>,
    new: Seq<EnvelopeView>,
    thread: Seq<char>,
    turns: Seq<Seq<char>>,
    other: Seq<char>,
    turn: Seq<char>,
)
    requires
        end_turns(new, thread, turns),
        other != thread,
    ensures
        reconcile::starts(es + new, other, turn) == reconcile::starts(es, other, turn),
        reconcile::ends(es + new, other, turn) == reconcile::ends(es, other, turn),
        reconcile::workspace(es + new, other, turn) == reconcile::workspace(es, other, turn),
        reconcile::turns_seen(es + new, other) == reconcile::turns_seen(es, other),
    decreases new.len(),
{
    if new.len() == 0 {
        assert(es + new =~= es);
    } else {
        let fewer = new.drop_last();
        let fewer_turns = turns.drop_last();
        assert forall|i: int| 0 <= i < fewer.len() implies reconcile::ends_turn(
            #[trigger] fewer[i],
            thread,
            fewer_turns[i],
        ) by {
            assert(fewer[i] == new[i]);
        }
        law_other_threads_are_untouched(es, fewer, thread, fewer_turns, other, turn);
        assert((es + new).drop_last() =~= es + fewer);
        assert(reconcile::ends_turn(new[new.len() - 1], thread, turns[turns.len() - 1]));
        assert((es + new).last() == new[new.len() - 1]);
    }
}

proof fn lemma_trimmed_line(e: EnvelopeView)
    ensures
        text::trimmed(envelope::envelope_line(e)) == envelope::envelope_line(e),
{
    let line = envelope::envelope_line(e);
    assert(line[0] == '{');
    assert(line.last() == '}');
}

/// The line of a readable envelope holds that envelope.
pub proof fn lemma_line_holds_envelope(e: EnvelopeView)
    requires
        append::readable(e),
    ensures
        reconcile::line_envelope(vstd::utf8::encode_utf8(envelope::envelope_line(e))) == Some(e),
{
    let line = envelope::envelope_line(e);
    vstd::utf8::encode_utf8_valid_utf8(line);
    vstd::utf8::encode_utf8_decode_utf8(line);
    lemma_trimmed_line(e);
    durability::lemma_line_not_blank(e);
}

/// Recovery takes no line away: what it cuts off is no line.
pub proof fn lemma_recovery_keeps_lines(file: Seq<u8>)
    requires
        append::recovery(file, true).next != Err::<u64, OutboxError>(OutboxError::NoCompleteLine),
    ensures
        durability::complete(file.take(append::recovery(file, true).keep)),
        reconcile::lines_of(file.take(append::recovery(file, true).keep)) == reconcile::lines_of(
            file,
        ),
{
    let keep = append::recovery(file, true).keep;
    durability::law_recovery_keeps_complete_lines(file, true);
    let kept = file.take(keep);
    let rest = file.skip(keep);
    reconcile::lemma_lines_push(kept, rest);
    assert(kept + rest =~= file);
}

/// Appending to a file adds the envelope to those that a scan sees, and takes
/// away no other, whatever torn line is cut off on the way.
pub proof fn law_append_adds_one_envelope(file: Seq<u8>, e: EnvelopeView)
    requires
        append::recovery(file, true).next != Err::<u64, OutboxError>(OutboxError::NoCompleteLine),
        append::readable(e),
    ensures
        ({
            let after = file.take(append::recovery(file, true).keep) + append::record(e);
            &&& durability::complete(after)
            &&& reconcile::lines_of(after) == reconcile::lines_of(file).push(
                vstd::utf8::encode_utf8(envelope::envelope_line(e)),
            )
            &&& reconcile::envelopes_on(reconcile::lines_of(after)) == reconcile::envelopes_on(
                reconcile::lines_of(file),
            ).push(e)
        }),
{
    let kept = file.take(append::recovery(file, true).keep);
    let encoded = vstd::utf8::encode_utf8(envelope::envelope_line(e));
    lemma_recovery_keeps_lines(file);
    durability::lemma_encoded_without_newline(envelope::envelope_line(e));
    lemma_line_holds_envelope(e);
    reconcile::lemma_lines_push(kept, encoded);
    assert((kept + append::record(e)).last() == 10);
    let before = reconcile::lines_of(kept);
    assert(before.push(encoded).drop_last() =~= before);
}

pub proof fn lemma_envelopes_after(
    file: Seq<u8>,
    events: Seq<EventView>,
    written: Seq<EnvelopeView>,
)
    requires
        reconcile::written_for(file, events, written),
    ensures
        reconcile::envelopes_on(reconcile::lines_of(reconcile::file_after(file, written)))
            == reconcile::envelopes_on(reconcile::lines_of(file)) + written,
    decreases written.len(),
{
    let es = reconcile::envelopes_on(reconcile::lines_of(file));
    if written.len() == 0 {
        assert(es + written =~= es);
    } else {
        let fewer = written.drop_last();
        let n = fewer.len() as int;
        let e = written[n];
        assert(written.take(n) =~= fewer);
        assert(reconcile::writes(reconcile::file_after(file, written.take(n)), events[n], e));
        assert forall|i: int| 0 <= i < fewer.len() implies reconcile::writes(
            reconcile::file_after(file, fewer.take(i)),
            events[i],
            #[trigger] fewer[i],
        ) by {
            assert(fewer.take(i) =~= written.take(i));
            assert(fewer[i] == written[i]);
        }
        lemma_envelopes_after(file, events, fewer);
        law_append_adds_one_envelope(reconcile::file_after(file, fewer), e);
        assert((es + fewer).push(e) =~= es + written);
    }
}

/// After a reconciliation that no deadline cut short, another one has nothing
/// to do, and every other thread's repairs are what they were.
pub proof fn law_reconciliation_is_idempotent(
    file: Seq<u8>,
    thread: Seq<char>,
    reason: Seq<char>,
    written: Seq<EnvelopeView>,
    other: Seq<char>,
    other_reason: Seq<char>,
)
    requires
        reconcile::written_for(file, reconcile::all_repairs(file, thread, reason), written),
        written.len() == reconcile::all_repairs(file, thread, reason).len(),
    ensures
        ({
            let after = reconcile::file_after(file, written);
            reconcile::all_repairs(after, other, other_reason) == if other == thread {
                Seq::<EventView>::empty()
            } else {
                reconcile::all_repairs(file, other, other_reason)
            }
        }),
{
    let es = reconcile::envelopes_on(reconcile::lines_of(file));
    let seen = reconcile::turns_seen(es, thread);
    assert(seen.take(seen.len() as int) =~= seen);
    let turns = reconcile::interrupted_among(seen, es, thread);
    lemma_repairs_end_turns(file, thread, reason, written);
    let all = es + written;
    let seen_after = reconcile::turns_seen(all, other);
    assert(seen_after.take(seen_after.len() as int) =~= seen_after);
    if other == thread {
        assert forall|turn: Seq<char>| !(#[trigger] reconcile::interrupted(all, thread, turn)) by {
            lemma_all_repaired(es, written, thread, turn);
        }
        lemma_none_interrupted(seen_after, all, thread);
        assert(reconcile::interruptions(Seq::empty(), all, thread, other_reason)
            =~= Seq::<EventView>::empty());
    } else {
        let other_seen = reconcile::turns_seen(es, other);
        assert(other_seen.take(other_seen.len() as int) =~= other_seen);
        lemma_other_interrupted(seen_after, es, written, thread, turns, other);
        let found = reconcile::interrupted_among(seen_after, es, other);
        assert(other_seen == seen_after) by {
            law_other_threads_are_untouched(es, written, thread, turns, other, Seq::empty());
        }
        assert(reconcile::interruptions(found, all, other, other_reason)
            =~= reconcile::interruptions(found, es, other, other_reason)) by {
            assert forall|i: int| 0 <= i < found.len() implies #[trigger] reconcile::workspace(
                all,
                other,
                found[i],
            ) == reconcile::workspace(es, other, found[i]) by {
                law_other_threads_are_untouched(es, written, thread, turns, other, found[i]);
            }
        }
    }
}

/// The envelopes written for all repairs of a thread end its interrupted turns,
/// and are what a scan sees behind the others.
pub proof fn lemma_repairs_end_turns(
    file: Seq<u8>,
    thread: Seq<char>,
    reason: Seq<char>,
    written: Seq<EnvelopeView>,
)
    requires
        reconcile::written_for(file, reconcile::all_repairs(file, thread, reason), written),
        written.len() == reconcile::all_repairs(file, thread, reason).len(),
    ensures
        ({
            let es = reconcile::envelopes_on(reconcile::lines_of(file));
            let seen = reconcile::turns_seen(es, thread);
            &&& end_turns(written, thread, reconcile::interrupted_among(seen, es, thread))
            &&& end_turns(
                written,
                thread,
                reconcile::interrupted_among(seen.take(seen.len() as int), es, thread),
            )
            &&& reconcile::envelopes_on(reconcile::lines_of(reconcile::file_after(file, written)))
                == es + written
        }),
{
    let es = reconcile::envelopes_on(reconcile::lines_of(file));
    let seen = reconcile::turns_seen(es, thread);
    assert(seen.take(seen.len() as int) =~= seen);
    let turns = reconcile::interrupted_among(seen, es, thread);
    let events = reconcile::all_repairs(file, thread, reason);
    lemma_envelopes_after(file, events, written);
    assert forall|i: int| 0 <= i < written.len() implies reconcile::ends_turn(
        #[trigger] written[i],
        thread,
        turns[i],
    ) by {
        assert(reconcile::writes(
            reconcile::file_after(file, written.take(i)),
            events[i],
            written[i],
        ));
    }
}

/// Once all interrupted turns of a thread are ended, none is interrupted.
proof fn lemma_all_repaired(
    es: Seq<EnvelopeView>,
    new: Seq<EnvelopeView>,
    thread: Seq<char>,
    turn: Seq<char>,
)
    requires
        ({
            let seen = reconcile::turns_seen(es, thread);
            end_turns(
                new,
                thread,
                reconcile::interrupted_among(seen.take(seen.len() as int), es, thread),
            )
        }),
    ensures
        !reconcile::interrupted(es + new, thread, turn),
        reconcile::interrupted(es, thread, turn) ==> reconcile::starts(es + new, thread, turn) == 1
            && reconcile::ends(es + new, thread, turn) == 1,
{
    let seen = reconcile::turns_seen(es, thread);
    assert(seen.take(seen.len() as int) =~= seen);
    law_repaired_turns_are_paired(es, new, thread, seen.len() as int, turn);
    if !seen.contains(turn) {
        reconcile::lemma_unseen(es, thread, turn);
    }
}

proof fn lemma_no_starts(
    es: Seq<EnvelopeView>,
    more: Seq<EnvelopeView>,
    thread: Seq<char>,
    turn: Seq<char>,
)
    requires
        starts_nothing(more, thread),
    ensures
        reconcile::starts(es + more, thread, turn) == reconcile::starts(es, thread, turn),
        reconcile::ends(es + more, thread, turn) >= reconcile::ends(es, thread, turn),
    decreases more.len(),
{
    if more.len() == 0 {
        assert(es + more =~= es);
    } else {
        let fewer = more.drop_last();
        assert forall|i: int| 0 <= i < fewer.len() implies !((#[trigger] fewer[i]).thread_id
            == thread && fewer[i].event == reconcile::TURN_START@) by {
            assert(fewer[i] == more[i]);
        }
        lemma_no_starts(es, fewer, thread, turn);
        assert((es + more).drop_last() =~= es + fewer);
        assert((es + more).last() == more[more.len() - 1]);
    }
}

/// Envelopes none of which starts a turn of the thread.
pub open spec fn starts_nothing(es: Seq<EnvelopeView>, thread: Seq<char>) -> bool {
    forall|i: int|
        0 <= i < es.len() ==> !((#[trigger] es[i]).thread_id == thread && es[i].event
            == reconcile::TURN_START@)
}

/// A file in which no turn of the thread is interrupted is left alone.
pub proof fn law_healthy_files_are_left_alone(
    file: Seq<u8>,
    thread: Seq<char>,
    reason: Seq<char>,
    considered: int,
    written: Seq<EnvelopeView>,
    result: Result<usize, OutboxError>,
    after: Seq<u8>,
)
    requires
        forall|turn: Seq<char>|
            !(#[trigger] reconcile::interrupted(
                reconcile::envelopes_on(reconcile::lines_of(file)),
                thread,
                turn,
            )),
        reconcile::reconciles(
            file,
            after,
            reconcile::repairs(file, thread, reason, considered),
            written,
            result,
        ),
    ensures
        result == Ok::<usize, OutboxError>(0),
        after == file,
{
    let es = reconcile::envelopes_on(reconcile::lines_of(file));
    lemma_none_interrupted(reconcile::turns_seen(es, thread).take(considered), es, thread);
}

/// Once a reconciliation was done, another one of the same thread does nothing
/// and leaves the file as it is: at once, and after whatever was appended in
/// between, as long as that started no turn of the thread.
pub proof fn law_second_reconciliation_does_nothing(
    file: Seq<u8>,
    thread: Seq<char>,
    reason: Seq<char>,
    written: Seq<EnvelopeView>,
    count: usize,
    after: Seq<u8>,
    later: Seq<u8>,
    more: Seq<EnvelopeView>,
    second_reason: Seq<char>,
    considered: int,
    second_written: Seq<EnvelopeView>,
    second: Result<usize, OutboxError>,
    last: Seq<u8>,
)
    requires
        reconcile::reconciles(
            file,
            after,
            reconcile::all_repairs(file, thread, reason),
            written,
            Ok(count),
        ),
        reconcile::envelopes_on(reconcile::lines_of(later)) == reconcile::envelopes_on(
            reconcile::lines_of(after),
        ) + more,
        starts_nothing(more, thread),
        reconcile::reconciles(
            later,
            last,
            reconcile::repairs(later, thread, second_reason, considered),
            second_written,
            second,
        ),
    ensures
        second == Ok::<usize, OutboxError>(0),
        last == later,
{
    let es = reconcile::envelopes_on(reconcile::lines_of(file));
    lemma_repairs_end_turns(file, thread, reason, written);
    let all = es + written;
    assert forall|turn: Seq<char>|
        !(#[trigger] reconcile::interrupted(all + more, thread, turn)) by {
        lemma_all_repaired(es, written, thread, turn);
        lemma_no_starts(all, more, thread, turn);
    }
    law_healthy_files_are_left_alone(
        later,
        thread,
        second_reason,
        considered,
        second_written,
        second,
        last,
    );
}

/// A reconciliation that was done and cut short by no deadline ends every
/// interrupted turn of the thread: each has one start and one end then. It
/// returns how many it ended.
pub proof fn law_reconciliation_ends_every_turn(
    file: Seq<u8>,
    thread: Seq<char>,
    reason: Seq<char>,
    written: Seq<EnvelopeView>,
    count: usize,
    after: Seq<u8>,
    turn: Seq<char>,
)
    requires
        reconcile::reconciles(
            file,
            after,
            reconcile::all_repairs(file, thread, reason),
            written,
            Ok(count),
        ),
        reconcile::interrupted(
            reconcile::envelopes_on(reconcile::lines_of(file)),
            thread,
            turn,
        ),
    ensures
        ({
            let es = reconcile::envelopes_on(reconcile::lines_of(after));
            &&& reconcile::starts(es, thread, turn) == 1
            &&& reconcile::ends(es, thread, turn) == 1
        }),
        count == written.len(),
        count > 0,
        reconcile::envelopes_on(reconcile::lines_of(after)) == reconcile::envelopes_on(
            reconcile::lines_of(file),
        ) + written,
{
    let es = reconcile::envelopes_on(reconcile::lines_of(file));
    let seen = reconcile::turns_seen(es, thread);
    lemma_repairs_end_turns(file, thread, reason, written);
    lemma_all_repaired(es, written, thread, turn);
    if written.len() == 0 {
        assert(es + written =~= es);
    }
}

proof fn lemma_none_interrupted(
    turns: Seq<Seq<char>>,
    es: Seq<EnvelopeView>,
    thread: Seq<char>,
)
    requires
        forall|turn: Seq<char>| !(#[trigger] reconcile::interrupted(es, thread, turn)),
    ensures
        reconcile::interrupted_among(turns, es, thread) == Seq::<Seq<char>>::empty(),
    decreases turns.len(),
{
    if turns.len() > 0 {
        lemma_none_interrupted(turns.drop_last(), es, thread);
    }
}

proof fn lemma_other_interrupted(
    seen: Seq<Seq<char>>,
    es: Seq<EnvelopeView>,
    new: Seq<EnvelopeView>,
    thread: Seq<char>,
    turns: Seq<Seq<char>>,
    other: Seq<char>,
)
    requires
        end_turns(new, thread, turns),
        other != thread,
    ensures
        reconcile::interrupted_among(seen, es + new, other) == reconcile::interrupted_among(
            seen,
            es,
            other,
        ),
    decreases seen.len(),
{
    if seen.len() > 0 {
        lemma_other_interrupted(seen.drop_last(), es, new, thread, turns, other);
        law_other_threads_are_untouched(es, new, thread, turns, other, seen.last());
    }
}

} // verus!
