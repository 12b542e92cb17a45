//! What reconciliation comes to, told by the names of events: which turns it
//! ends, with what, and what it leaves alone.
use vstd::prelude::*;

use crate::json;
use crate::outbox::append;
use crate::outbox::durability;
use crate::outbox::envelope::{EnvelopeView, EventView};
use crate::outbox::error::OutboxError;
use crate::outbox::pairing;
use crate::outbox::reconcile;

verus! {

/// How many envelopes of a thread carry a turn and an event of this name.
pub open spec fn mentions(
    es: Seq<EnvelopeView>,
    thread: Seq<char>,
    turn: Seq<char>,
    event: Seq<char>,
) -> nat {
    es.filter(
        |e: EnvelopeView| e.thread_id == thread && e.turn_id == Some(turn) && e.event == event,
    ).len()
}

/// Whether a turn is open: one envelope named `turn_start` carries it, and none
/// named `turn_end` does.
pub open spec fn open_turn(es: Seq<EnvelopeView>, thread: Seq<char>, turn: Seq<char>) -> bool {
    mentions(es, thread, turn, "turn_start"@) == 1 && mentions(es, thread, turn, "turn_end"@) == 0
}

/// Whether `workspace` is what the first start of a turn that names a workspace
/// names; there is none where no start names any.
pub open spec fn first_named(
    es: Seq<EnvelopeView>,
    thread: Seq<char>,
    turn: Seq<char>,
    workspace: Option<Seq<char>>,
) -> bool {
    match workspace {
        Some(_) => exists|k: int|
            {
                &&& 0 <= k < es.len()
                &&& (#[trigger] es[k]).thread_id == thread && es[k].turn_id == Some(turn)
                &&& es[k].event == "turn_start"@
                &&& json::json_entry(es[k].payload, "workspace"@) == workspace
                &&& names_none(es.take(k), thread, turn)
            },
        None => names_none(es, thread, turn),
    }
}

/// Whether no start of a turn names a workspace.
pub open spec fn names_none(es: Seq<EnvelopeView>, thread: Seq<char>, turn: Seq<char>) -> bool {
    forall|j: int|
        0 <= j < es.len() && (#[trigger] es[j]).thread_id == thread && es[j].turn_id == Some(turn)
            && es[j].event == "turn_start"@ ==> json::json_entry(
            es[j].payload,
            "workspace"@,
        ) is None
}

proof fn lemma_mentions_push(
    es: Seq<EnvelopeView>,
    e: EnvelopeView,
    thread: Seq<char>,
    turn: Seq<char>,
    event: Seq<char>,
)
    ensures
        mentions(es.push(e), thread, turn, event) == mentions(es, thread, turn, event)
            + if e.thread_id == thread && e.turn_id == Some(turn) && e.event == event {
            1nat
        } else {
            0nat
        },
{
    reveal(Seq::filter);
    assert(es.push(e).drop_last() =~= es);
}

/// A turn's starts are the envelopes of its thread that carry the turn and the
/// event name `turn_start`, and its ends those with the name `turn_end`; no
/// other name counts.
pub proof fn law_turns_are_counted_by_event_name(
    es: Seq<EnvelopeView>,
    thread: Seq<char>,
    turn: Seq<char>,
)
    ensures
        reconcile::starts(es, thread, turn) == mentions(es, thread, turn, "turn_start"@),
        reconcile::ends(es, thread, turn) == mentions(es, thread, turn, "turn_end"@),
        reconcile::interrupted(es, thread, turn) <==> open_turn(es, thread, turn),
    decreases es.len(),
{
    reveal(Seq::filter);
    if es.len() > 0 {
        law_turns_are_counted_by_event_name(es.drop_last(), thread, turn);
        lemma_mentions_push(es.drop_last(), es.last(), thread, turn, "turn_start"@);
        lemma_mentions_push(es.drop_last(), es.last(), thread, turn, "turn_end"@);
        assert(es.drop_last().push(es.last()) =~= es);
    }
}

/// An envelope with another event name than `turn_start` and `turn_end`, of
/// another thread or without a turn changes nothing of what is counted.
pub proof fn law_other_envelopes_do_not_count(
    es: Seq<EnvelopeView>,
    e: EnvelopeView,
    thread: Seq<char>,
    turn: Seq<char>,
)
    requires
        e.thread_id != thread || e.turn_id is None || (e.event != "turn_start"@ && e.event
            != "turn_end"@),
    ensures
        reconcile::starts(es.push(e), thread, turn) == reconcile::starts(es, thread, turn),
        reconcile::ends(es.push(e), thread, turn) == reconcile::ends(es, thread, turn),
        reconcile::workspace(es.push(e), thread, turn) == reconcile::workspace(es, thread, turn),
        reconcile::turns_seen(es.push(e), thread) == reconcile::turns_seen(es, thread),
{
    assert(es.push(e).drop_last() =~= es);
}

/// The workspace of a turn is the one that the first of its starts names that
/// names any.
pub proof fn law_workspace_is_the_first_named(
    es: Seq<EnvelopeView>,
    thread: Seq<char>,
    turn: Seq<char>,
)
    ensures
        first_named(es, thread, turn, reconcile::workspace(es, thread, turn)),
    decreases es.len(),
{
    if es.len() > 0 {
        let fewer = es.drop_last();
        let n = es.len() - 1;
        law_workspace_is_the_first_named(fewer, thread, turn);
        let earlier = reconcile::workspace(fewer, thread, turn);
        let now = reconcile::workspace(es, thread, turn);
        assert(es.take(n) =~= fewer);
        if earlier is Some {
            let k = choose|k: int|
                {
                    &&& 0 <= k < fewer.len()
                    &&& (#[trigger] fewer[k]).thread_id == thread && fewer[k].turn_id == Some(turn)
                    &&& fewer[k].event == "turn_start"@
                    &&& json::json_entry(fewer[k].payload, "workspace"@) == earlier
                    &&& names_none(fewer.take(k), thread, turn)
                };
            assert(fewer.take(k) =~= es.take(k));
            assert(es[k] == fewer[k]);
        } else if now is Some {
            assert(es[n] == es.last());
        } else {
            assert forall|j: int|
                0 <= j < es.len() && (#[trigger] es[j]).thread_id == thread && es[j].turn_id
                    == Some(turn) && es[j].event == "turn_start"@ implies json::json_entry(
                es[j].payload,
                "workspace"@,
            ) is None by {
                if j < n {
                    assert(fewer[j] == es[j]);
                }
            }
        }
    }
}

/// Whether an event ends an open turn of a thread: an event `turn_end` of the
/// kind `turn.interrupted` that carries the turn and no item, and says that the
/// turn was interrupted and reconciled, why, and the workspace that its start
/// names.
#[verifier::opaque]
pub open spec fn ends_open_turn(
    event: EventView,
    es: Seq<EnvelopeView>,
    thread: Seq<char>,
    reason: Seq<char>,
) -> bool {
    &&& event.event == "turn_end"@
    &&& event.kind == "turn.interrupted"@
    &&& event.thread_id == thread
    &&& event.turn_id is Some
    &&& event.item_id is None
    &&& open_turn(es, thread, event.turn_id->0)
    &&& exists|workspace: Option<Seq<char>>|
        {
            &&& #[trigger] first_named(es, thread, event.turn_id->0, workspace)
            &&& event.payload == json::object_text(
                seq![
                    ("status"@, json::json_quoted("interrupted"@)),
                    ("reconciled"@, "true"@),
                    ("reason"@, json::json_quoted(reason)),
                    (
                        "workspace"@,
                        if workspace is Some {
                            workspace->0
                        } else {
                            "null"@
                        },
                    ),
                ],
            )
        }
}

/// Each repair ends an open turn, and no turn is repaired twice, however many of
/// the thread's turns are considered.
pub proof fn law_repairs_end_open_turns(
    file: Seq<u8>,
    thread: Seq<char>,
    reason: Seq<char>,
    considered: int,
)
    requires
        0 <= considered <= reconcile::turn_count(file, thread),
    ensures
        ({
            let es = reconcile::envelopes_on(reconcile::lines_of(file));
            let events = reconcile::repairs(file, thread, reason, considered);
            &&& forall|i: int|
                0 <= i < events.len() ==> ends_open_turn(#[trigger] events[i], es, thread, reason)
            &&& forall|i: int, j: int|
                0 <= i < j < events.len() ==> (#[trigger] events[i]).turn_id != (
                #[trigger] events[j]).turn_id
        }),
{
    let es = reconcile::envelopes_on(reconcile::lines_of(file));
    let some = reconcile::turns_seen(es, thread).take(considered);
    let turns = reconcile::interrupted_among(some, es, thread);
    let events = reconcile::repairs(file, thread, reason, considered);
    reconcile::lemma_turns_seen_distinct(es, thread);
    pairing::lemma_interrupted_among_distinct(some, es, thread);
    assert forall|i: int| 0 <= i < events.len() implies ends_open_turn(
        #[trigger] events[i],
        es,
        thread,
        reason,
    ) by {
        let turn = turns[i];
        reveal(ends_open_turn);
        assert(turns.contains(turn));
        pairing::lemma_interrupted_among_contains(some, es, thread, turn);
        law_turns_are_counted_by_event_name(es, thread, turn);
        law_workspace_is_the_first_named(es, thread, turn);
        let workspace = reconcile::workspace(es, thread, turn);
        assert(first_named(es, thread, events[i].turn_id->0, workspace));
        assert(reconcile::interruption_members(reason, workspace) =~= seq![
            ("status"@, json::json_quoted("interrupted"@)),
            ("reconciled"@, "true"@),
            ("reason"@, json::json_quoted(reason)),
            (
                "workspace"@,
                if workspace is Some {
                    workspace->0
                } else {
                    "null"@
                },
            ),
        ]);
    }
    assert forall|i: int, j: int| 0 <= i < j < events.len() implies (#[trigger] events[i]).turn_id
        != (#[trigger] events[j]).turn_id by {
        assert(turns[i] != turns[j]);
    }
}

/// A turn is repaired exactly when it is open: whatever envelopes with other
/// event names stand between, only a `turn_end` ends a turn.
pub proof fn law_open_turns_are_repaired(
    file: Seq<u8>,
    thread: Seq<char>,
    reason: Seq<char>,
    turn: Seq<char>,
)
    ensures
        ({
            let es = reconcile::envelopes_on(reconcile::lines_of(file));
            let events = reconcile::all_repairs(file, thread, reason);
            (mentions(es, thread, turn, "turn_start"@) == 1 && mentions(
                es,
                thread,
                turn,
                "turn_end"@,
            ) == 0) <==> exists|i: int|
                0 <= i < events.len() && (#[trigger] events[i]).turn_id == Some(turn)
        }),
{
    let es = reconcile::envelopes_on(reconcile::lines_of(file));
    let seen = reconcile::turns_seen(es, thread);
    let turns = reconcile::interrupted_among(seen, es, thread);
    let events = reconcile::all_repairs(file, thread, reason);
    assert(seen.take(seen.len() as int) =~= seen);
    law_turns_are_counted_by_event_name(es, thread, turn);
    pairing::lemma_interrupted_among_contains(seen, es, thread, turn);
    if !seen.contains(turn) {
        reconcile::lemma_unseen(es, thread, turn);
    }
    if turns.contains(turn) {
        let i = choose|i: int| 0 <= i < turns.len() && turns[i] == turn;
        assert(events[i].turn_id == Some(turn));
    }
    if exists|i: int| 0 <= i < events.len() && (#[trigger] events[i]).turn_id == Some(turn) {
        let i = choose|i: int| 0 <= i < events.len() && (#[trigger] events[i]).turn_id == Some(
            turn,
        );
        assert(turns[i] == turn);
    }
}

/// Whether an envelope carries an event: its name, kind, thread, turn, item and
/// payload.
pub open spec fn says(e: EnvelopeView, event: EventView) -> bool {
    &&& e.event == event.event
    &&& e.kind == event.kind
    &&& e.thread_id == event.thread_id
    &&& e.turn_id == event.turn_id
    &&& e.item_id == event.item_id
    &&& e.payload == event.payload
}

/// A reconciliation, whether it was done, cut short or refused, only adds lines:
/// each of the envelopes that it adds carries the end of another turn that was
/// open, under the number after the one before it, and the first under the number
/// that the file continues with. A reconciliation that was done returns how many
/// it added.
pub proof fn law_reconciliation_only_ends_open_turns(
    file: Seq<u8>,
    thread: Seq<char>,
    reason: Seq<char>,
    considered: int,
    written: Seq<EnvelopeView>,
    result: Result<usize, OutboxError>,
    after: Seq<u8>,
)
    requires
        0 <= considered <= reconcile::turn_count(file, thread),
        reconcile::reconciles(
            file,
            after,
            reconcile::repairs(file, thread, reason, considered),
            written,
            result,
        ),
    ensures
        ({
            let es = reconcile::envelopes_on(reconcile::lines_of(file));
            let events = reconcile::repairs(file, thread, reason, considered);
            &&& reconcile::envelopes_on(reconcile::lines_of(after)) == es + written
            &&& written.len() <= events.len()
            &&& forall|i: int|
                0 <= i < written.len() ==> says(#[trigger] written[i], events[i]) && ends_open_turn(
                    events[i],
                    es,
                    thread,
                    reason,
                )
            &&& forall|i: int|
                0 < i < written.len() ==> (#[trigger] written[i]).seq == if written[i - 1].seq
                    == u64::MAX {
                    u64::MAX as int
                } else {
                    written[i - 1].seq + 1
                }
            &&& written.len() > 0 ==> append::recovery(file, true).next is Ok && written[0].seq
                == append::recovery(file, true).next->Ok_0
            &&& result matches Ok(count) ==> count == written.len() && count == events.len()
            &&& result is Err ==> written.len() < events.len()
            &&& result matches Err(error) ==> match error {
                OutboxError::LineTooLong { bytes } => bytes > 61440,
                OutboxError::TailNotUtf8 => true,
                OutboxError::LastLineUnparseable => true,
                OutboxError::NoCompleteLine => true,
                _ => false,
            }
            &&& result is Err && written.len() == 0 && append::recovery(file, true).next is Err
                ==> result->Err_0 == append::recovery(file, true).next->Err_0
        }),
{
    let es = reconcile::envelopes_on(reconcile::lines_of(file));
    let events = reconcile::repairs(file, thread, reason, considered);
    law_repairs_end_open_turns(file, thread, reason, considered);
    pairing::lemma_envelopes_after(file, events, written);
    let last = reconcile::file_after(file, written);
    if result is Err {
        if append::recovery(last, true).next != Err::<u64, OutboxError>(
            OutboxError::NoCompleteLine,
        ) {
            pairing::lemma_recovery_keeps_lines(last);
        } else {
            durability::law_recovery_keeps_complete_lines(last, true);
            assert(last.take(last.len() as int) =~= last);
        }
    }
    assert forall|i: int| 0 <= i < written.len() implies says(#[trigger] written[i], events[i])
        && ends_open_turn(events[i], es, thread, reason) by {
        assert(reconcile::writes(
            reconcile::file_after(file, written.take(i)),
            events[i],
            written[i],
        ));
    }
    if written.len() > 0 {
        assert(reconcile::writes(
            reconcile::file_after(file, written.take(0)),
            events[0],
            written[0],
        ));
        assert(written.take(0) =~= Seq::empty());
    }
    assert forall|i: int| 0 < i < written.len() implies (#[trigger] written[i]).seq
        == if written[i - 1].seq == u64::MAX {
        u64::MAX as int
    } else {
        written[i - 1].seq + 1
    } by {
        lemma_next_written(file, events, written, i);
    }
}

proof fn lemma_next_written(
    file: Seq<u8>,
    events: Seq<EventView>,
    written: Seq<EnvelopeView>,
    i: int,
)
    requires
        reconcile::written_for(file, events, written),
        0 < i < written.len(),
    ensures
        written[i].seq == append::next_seq(written[i - 1].seq),
{
    let earlier = written.take(i);
    let before = reconcile::file_after(file, written.take(i - 1));
    assert(earlier.drop_last() =~= written.take(i - 1));
    assert(earlier.last() == written[i - 1]);
    assert(reconcile::writes(before, events[i - 1], written[i - 1]));
    assert(reconcile::writes(reconcile::file_after(file, earlier), events[i], written[i]));
    let kept = before.take(append::recovery(before, true).keep);
    durability::law_recovery_keeps_complete_lines(before, true);
    durability::law_recovery_continues_after_append(kept, written[i - 1], Seq::empty(), true);
    assert(kept + append::record(written[i - 1]) + Seq::<u8>::empty() =~= kept + append::record(
        written[i - 1],
    ));
}

/// A reconciliation that was done and cut short by no deadline closes every open
/// turn of the thread, and counts the same as before for every other turn and
/// every other thread.
pub proof fn law_reconciliation_closes_open_turns(
    file: Seq<u8>,
    thread: Seq<char>,
    reason: Seq<char>,
    written: Seq<EnvelopeView>,
    count: usize,
    after: Seq<u8>,
    any_thread: Seq<char>,
    turn: Seq<char>,
)
    requires
        reconcile::reconciles(
            file,
            after,
            reconcile::all_repairs(file, thread, reason),
            written,
            Ok(count),
        ),
    ensures
        ({
            let es = reconcile::envelopes_on(reconcile::lines_of(file));
            let all = reconcile::envelopes_on(reconcile::lines_of(after));
            &&& mentions(all, any_thread, turn, "turn_start"@) == mentions(
                es,
                any_thread,
                turn,
                "turn_start"@,
            )
            &&& mentions(all, any_thread, turn, "turn_end"@) == mentions(
                es,
                any_thread,
                turn,
                "turn_end"@,
            ) + if any_thread == thread && open_turn(es, thread, turn) {
                1nat
            } else {
                0nat
            }
            &&& any_thread == thread ==> !open_turn(all, thread, turn)
        }),
{
    let es = reconcile::envelopes_on(reconcile::lines_of(file));
    let all = es + written;
    let seen = reconcile::turns_seen(es, thread);
    let turns = reconcile::interrupted_among(seen, es, thread);
    assert(seen.take(seen.len() as int) =~= seen);
    pairing::lemma_repairs_end_turns(file, thread, reason, written);
    law_turns_are_counted_by_event_name(es, any_thread, turn);
    law_turns_are_counted_by_event_name(all, any_thread, turn);
    if any_thread == thread {
        reconcile::lemma_turns_seen_distinct(es, thread);
        pairing::lemma_interrupted_among_distinct(seen, es, thread);
        pairing::lemma_interrupted_among_contains(seen, es, thread, turn);
        pairing::lemma_counts_after_ends(es, written, thread, turns, turn);
        if !seen.contains(turn) {
            reconcile::lemma_unseen(es, thread, turn);
        }
    } else {
        pairing::law_other_threads_are_untouched(es, written, thread, turns, any_thread, turn);
    }
}

/// The lines of a file are its bytes, cut behind each line feed: no line holds
/// one, and the lines, each with its line feed, and the rest behind the last line
/// feed make up the file.
pub proof fn law_lines_make_up_the_file(bytes: Seq<u8>)
    ensures
        forall|i: int, j: int|
            0 <= i < reconcile::lines_of(bytes).len() && 0 <= j < reconcile::lines_of(
                bytes,
            )[i].len() ==> #[trigger] reconcile::lines_of(bytes)[i][j] != 10,
        exists|rest: Seq<u8>|
            #![trigger rest.len()]
            {
                &&& forall|j: int| 0 <= j < rest.len() ==> rest[j] != 10
                &&& reconcile::lines_of(bytes).map_values(
                    |line: Seq<u8>| line.push(10),
                ).flatten() + rest == bytes
            },
    decreases bytes.len(),
{
    let lines = reconcile::lines_of(bytes);
    let end = append::last_newline(bytes);
    append::lemma_last_newline(bytes);
    let with_feeds = lines.map_values(|line: Seq<u8>| line.push(10));
    if end < 0 {
        assert(with_feeds =~= Seq::<Seq<u8>>::empty());
        assert(Seq::<Seq<u8>>::empty().flatten() + bytes =~= bytes);
        assert(bytes.len() == bytes.len());
    } else {
        let body = bytes.take(end);
        let at = append::last_newline(body);
        append::lemma_last_newline(body);
        let fewer = body.take(at + 1);
        let line = body.skip(at + 1);
        law_lines_make_up_the_file(fewer);
        let earlier = reconcile::lines_of(fewer);
        assert(lines == earlier.push(line));
        let earlier_feeds = earlier.map_values(|line: Seq<u8>| line.push(10));
        let rest = choose|rest: Seq<u8>|
            #![trigger rest.len()]
            {
                &&& forall|j: int| 0 <= j < rest.len() ==> rest[j] != 10
                &&& earlier_feeds.flatten() + rest == fewer
            };
        if rest.len() > 0 {
            assert(fewer.last() == rest.last());
            assert(at >= 0 ==> fewer.last() == 10);
        }
        assert(rest.len() == 0);
        assert(earlier_feeds.flatten() =~= fewer);
        assert(with_feeds =~= earlier_feeds.push(line.push(10)));
        earlier_feeds.lemma_flatten_push(line.push(10));
        let torn = bytes.skip(end + 1);
        assert(with_feeds.flatten() + torn =~= bytes);
        assert(torn.len() == bytes.len() - end - 1);
        assert forall|j: int| 0 <= j < torn.len() implies torn[j] != 10 by {
            assert(torn[j] == bytes[j + end + 1]);
        }
        assert forall|i: int, j: int|
            0 <= i < lines.len() && 0 <= j < lines[i].len() implies #[trigger] lines[i][j]
            != 10 by {
            if i < earlier.len() {
                assert(lines[i] == earlier[i]);
                assert(earlier[i][j] != 10);
            } else {
                assert(lines[i][j] == body[j + at + 1]);
            }
        }
    }
}

/// The envelopes on some lines are those of the lines in order: the envelopes of
/// the first lines, and behind them those of the others. A line has one at most.
pub proof fn law_envelopes_are_read_line_by_line(first: Seq<Seq<u8>>, second: Seq<Seq<u8>>)
    ensures
        reconcile::envelopes_on(first + second) == reconcile::envelopes_on(first)
            + reconcile::envelopes_on(second),
        reconcile::envelopes_on(first).len() <= first.len(),
        first.len() == 1 ==> reconcile::envelopes_on(first) == match reconcile::line_envelope(
            first[0],
        ) {
            Some(e) => seq![e],
            None => Seq::empty(),
        },
    decreases first.len() + second.len(),
{
    let both = first + second;
    if second.len() > 0 {
        assert(both.drop_last() =~= first + second.drop_last());
        law_envelopes_are_read_line_by_line(first, second.drop_last());
        assert(reconcile::envelopes_on(both) =~= reconcile::envelopes_on(first)
            + reconcile::envelopes_on(second));
    } else {
        assert(both =~= first);
        assert(reconcile::envelopes_on(first) + reconcile::envelopes_on(second)
            =~= reconcile::envelopes_on(first));
        if first.len() > 0 {
            law_envelopes_are_read_line_by_line(first.drop_last(), second);
            assert(first.drop_last() + second =~= first.drop_last());
        }
        if first.len() == 1 {
            assert(first.drop_last() =~= Seq::empty());
            assert(reconcile::envelopes_on(first.drop_last()) =~= Seq::empty());
        }
    }
}

} // verus!
