//! Reconciling interrupted turns: finding a thread's turns that were started
//! and never ended, and ending them.
use vstd::prelude::*;

use crate::outbox::append;
use crate::outbox::append::OutboxFile;
use crate::outbox::durability;
use crate::outbox::envelope;
use crate::outbox::envelope::{EnvelopeView, EventView, LifecycleEvent, RuntimeEventEnvelope};
use crate::outbox::error::OutboxError;
use crate::json;
use crate::text;

verus! {

/// The lines of a file, without their line feeds. What follows the last line feed
/// is torn, and no line.
pub open spec fn lines_of(bytes: Seq<u8>) -> Seq<Seq<u8>>
    decreases bytes.len(),
{
    let end = append::last_newline(bytes);
    if end < 0 {
        Seq::empty()
    } else {
        let body = bytes.take(end);
        let at = append::last_newline(body);
        proof {
            append::lemma_last_newline(bytes);
            append::lemma_last_newline(body);
        }
        lines_of(body.take(at + 1)).push(body.skip(at + 1))
    }
}

/// The envelope on a line; none on a blank line, on one that is not UTF-8 and
/// on one that is no envelope.
pub open spec fn line_envelope(line: Seq<u8>) -> Option<EnvelopeView> {
    if !vstd::utf8::valid_utf8(line) {
        None
    } else {
        let t = text::trimmed(vstd::utf8::decode_utf8(line));
        if t.len() == 0 {
            None
        } else {
            envelope::parsed(t)
        }
    }
}

/// The envelopes on some lines, in order.
pub open spec fn envelopes_on(lines: Seq<Seq<u8>>) -> Seq<EnvelopeView>
    decreases lines.len(),
{
    if lines.len() == 0 {
        Seq::empty()
    } else {
        match line_envelope(lines.last()) {
            Some(e) => envelopes_on(lines.drop_last()).push(e),
            None => envelopes_on(lines.drop_last()),
        }
    }
}

/// The event name of a turn's start.
pub const TURN_START: &'static str = "turn_start";

/// The event name of a turn's end.
pub const TURN_END: &'static str = "turn_end";

/// Whether an envelope starts the turn `turn` of the thread `thread`.
pub open spec fn starts_turn(e: EnvelopeView, thread: Seq<char>, turn: Seq<char>) -> bool {
    e.thread_id == thread && e.turn_id == Some(turn) && e.event == TURN_START@
}

/// Whether an envelope ends the turn `turn` of the thread `thread`.
pub open spec fn ends_turn(e: EnvelopeView, thread: Seq<char>, turn: Seq<char>) -> bool {
    e.thread_id == thread && e.turn_id == Some(turn) && e.event == TURN_END@
}

/// How often a turn was started.
pub open spec fn starts(es: Seq<EnvelopeView>, thread: Seq<char>, turn: Seq<char>) -> nat
    decreases es.len(),
{
    if es.len() == 0 {
        0
    } else {
        starts(es.drop_last(), thread, turn) + if starts_turn(es.last(), thread, turn) {
            1nat
        } else {
            0nat
        }
    }
}

/// How often a turn was ended.
pub open spec fn ends(es: Seq<EnvelopeView>, thread: Seq<char>, turn: Seq<char>) -> nat
    decreases es.len(),
{
    if es.len() == 0 {
        0
    } else {
        ends(es.drop_last(), thread, turn) + if ends_turn(es.last(), thread, turn) {
            1nat
        } else {
            0nat
        }
    }
}

/// The workspace of a turn: that of its first start that names one.
pub open spec fn workspace(
    es: Seq<EnvelopeView>,
    thread: Seq<char>,
    turn: Seq<char>,
) -> Option<Seq<char>>
    decreases es.len(),
{
    if es.len() == 0 {
        None
    } else {
        let earlier = workspace(es.drop_last(), thread, turn);
        if earlier is None && starts_turn(es.last(), thread, turn) {
            json::json_entry(es.last().payload, "workspace"@)
        } else {
            earlier
        }
    }
}

/// The turn that an envelope of the thread starts or ends.
pub open spec fn turn_touched(e: EnvelopeView, thread: Seq<char>) -> Option<Seq<char>> {
    if e.thread_id == thread && (e.event == TURN_START@ || e.event == TURN_END@) {
        e.turn_id
    } else {
        None
    }
}

/// The turns that a thread started or ended, in order of their first mention.
pub open spec fn turns_seen(es: Seq<EnvelopeView>, thread: Seq<char>) -> Seq<Seq<char>>
    decreases es.len(),
{
    if es.len() == 0 {
        Seq::empty()
    } else {
        let earlier = turns_seen(es.drop_last(), thread);
        match turn_touched(es.last(), thread) {
            Some(turn) => if earlier.contains(turn) {
                earlier
            } else {
                earlier.push(turn)
            },
            None => earlier,
        }
    }
}

/// Whether a turn was interrupted: started once and never ended. A turn with
/// several starts cannot be paired any more, and is left alone.
pub open spec fn interrupted(es: Seq<EnvelopeView>, thread: Seq<char>, turn: Seq<char>) -> bool {
    starts(es, thread, turn) == 1 && ends(es, thread, turn) == 0
}

/// The interrupted ones among some turns.
pub open spec fn interrupted_among(
    turns: Seq<Seq<char>>,
    es: Seq<EnvelopeView>,
    thread: Seq<char>,
) -> Seq<Seq<char>>
    decreases turns.len(),
{
    if turns.len() == 0 {
        Seq::empty()
    } else {
        let earlier = interrupted_among(turns.drop_last(), es, thread);
        if interrupted(es, thread, turns.last()) {
            earlier.push(turns.last())
        } else {
            earlier
        }
    }
}

/// The members of the payload that ends an interrupted turn.
pub open spec fn interruption_members(
    reason: Seq<char>,
    workspace: Option<Seq<char>>,
) -> Seq<(Seq<char>, Seq<char>)> {
    seq![
        ("status"@, json::json_quoted("interrupted"@)),
        ("reconciled"@, "true"@),
        ("reason"@, json::json_quoted(reason)),
        (
            "workspace"@,
            match workspace {
                Some(w) => w,
                None => "null"@,
            },
        ),
    ]
}

/// The event that ends an interrupted turn.
pub open spec fn interruption(
    thread: Seq<char>,
    reason: Seq<char>,
    turn: Seq<char>,
    workspace: Option<Seq<char>>,
) -> EventView {
    EventView {
        event: TURN_END@,
        kind: "turn.interrupted"@,
        thread_id: thread,
        turn_id: Some(turn),
        item_id: None,
        payload: json::object_text(interruption_members(reason, workspace)),
    }
}

/// The events that end some interrupted turns.
pub open spec fn interruptions(
    turns: Seq<Seq<char>>,
    es: Seq<EnvelopeView>,
    thread: Seq<char>,
    reason: Seq<char>,
) -> Seq<EventView> {
    turns.map_values(
        |turn: Seq<char>| interruption(thread, reason, turn, workspace(es, thread, turn)),
    )
}

/// Whether a workspace, if there is one, is read inside a payload.
pub open spec fn reads_in_payload(workspace: Option<serde_json::Value>) -> bool {
    workspace is Some ==> json::reads_at(json::json_text(workspace->0), 2)
}

/// The event that ends an interrupted turn: the turn's status, that it was
/// reconciled, why, and the workspace of its start.
pub fn interruption_event(
    thread_id: &str,
    reason: &str,
    turn_id: &str,
    workspace: &Option<serde_json::Value>,
) -> (event: LifecycleEvent)
    ensures
        event@ == interruption(
            thread_id@,
            reason@,
            turn_id@,
            json::optional_text(*workspace),
        ),
        reads_in_payload(*workspace) ==> json::reads_at(event@.payload, 1),
{
    let workspace_value = match workspace {
        Some(w) => w.clone(),
        None => json::null_value(),
    };
    let mut payload = json::new_object();
    proof {
        reveal_strlit("status");
        reveal_strlit("reconciled");
        reveal_strlit("reason");
        reveal_strlit("workspace");
        assert("status"@[0] != "reason"@[0]);
    }
    let status = json::string_value("interrupted");
    let reconciled = json::bool_value(true);
    let why = json::string_value(reason);
    assert(json::reads_at(json::json_text(status), 2));
    assert(json::reads_at(json::json_text(reconciled), 2));
    assert(json::reads_at(json::json_text(why), 2));
    assert(workspace is None ==> json::reads_at(json::json_text(workspace_value), 2));
    json::insert(&mut payload, "status", status);
    let ghost one = seq![("status"@, json::json_quoted("interrupted"@))];
    assert(json::json_members(payload) =~= one);
    json::insert(&mut payload, "reconciled", reconciled);
    let ghost two = one.push(("reconciled"@, "true"@));
    assert(one[0].0 == "status"@);
    assert(json::json_members(payload) =~= two);
    json::insert(&mut payload, "reason", why);
    let ghost three = two.push(("reason"@, json::json_quoted(reason@)));
    assert(two[0].0 == "status"@ && two[1].0 == "reconciled"@);
    assert(json::json_members(payload) =~= three);
    json::insert(&mut payload, "workspace", workspace_value);
    assert(three[0].0 == "status"@ && three[1].0 == "reconciled"@ && three[2].0 == "reason"@);
    assert(json::json_members(payload) =~= three.push(
        ("workspace"@, json::json_text(workspace_value)),
    ));
    let ghost members = json::json_members(payload);
    assert(members =~= interruption_members(reason@, json::optional_text(*workspace)));
    proof {
        if reads_in_payload(*workspace) {
            assert forall|i: int| 0 <= i < members.len() implies #[trigger] json::reads_at(
                members[i].1,
                2,
            ) by {}
            assert(json::members_read_at(members, 1));
        }
    }
    LifecycleEvent {
        event: TURN_END.to_string(),
        kind: "turn.interrupted".to_string(),
        thread_id: thread_id.to_string(),
        turn_id: Some(turn_id.to_string()),
        item_id: None,
        payload: json::object_value(payload),
    }
}

/// What a scan has counted for one turn. Counts stop at the largest `usize`.
pub struct TurnTally {
    pub turn_id: String,
    pub starts: usize,
    pub ends: usize,
    pub workspace: Option<serde_json::Value>,
}

/// A count, as far as it can be expressed.
pub open spec fn saturated(n: nat) -> usize {
    if n <= usize::MAX {
        n as usize
    } else {
        usize::MAX
    }
}

/// Whether a tally says what the envelopes say of the turn `turn`.
pub open spec fn tells(
    tally: TurnTally,
    es: Seq<EnvelopeView>,
    thread: Seq<char>,
    turn: Seq<char>,
) -> bool {
    &&& tally.turn_id@ == turn
    &&& tally.starts == saturated(starts(es, thread, turn))
    &&& tally.ends == saturated(ends(es, thread, turn))
    &&& json::optional_text(tally.workspace) == workspace(es, thread, turn)
    &&& reads_in_payload(tally.workspace)
}

/// Whether there is one tally for each turn seen, in order.
pub open spec fn tells_all(
    tallies: Seq<TurnTally>,
    es: Seq<EnvelopeView>,
    thread: Seq<char>,
) -> bool {
    &&& tallies.len() == turns_seen(es, thread).len()
    &&& forall|k: int|
        0 <= k < tallies.len() ==> tells(
            #[trigger] tallies[k],
            es,
            thread,
            turns_seen(es, thread)[k],
        )
}

/// A turn that was never mentioned was neither started nor ended.
pub proof fn lemma_unseen(es: Seq<EnvelopeView>, thread: Seq<char>, turn: Seq<char>)
    requires
        !turns_seen(es, thread).contains(turn),
    ensures
        starts(es, thread, turn) == 0,
        ends(es, thread, turn) == 0,
        workspace(es, thread, turn) is None,
    decreases es.len(),
{
    if es.len() > 0 {
        let earlier = turns_seen(es.drop_last(), thread);
        let seen = turns_seen(es, thread);
        if earlier.contains(turn) {
            let i = choose|i: int| 0 <= i < earlier.len() && earlier[i] == turn;
            assert(seen[i] == turn);
        }
        if turn_touched(es.last(), thread) == Some(turn) {
            if !earlier.contains(turn) {
                assert(seen[seen.len() - 1] == turn);
            }
        }
        lemma_unseen(es.drop_last(), thread, turn);
    }
}

/// No turn is listed twice.
pub proof fn lemma_turns_seen_distinct(es: Seq<EnvelopeView>, thread: Seq<char>)
    ensures
        turns_seen(es, thread).no_duplicates(),
    decreases es.len(),
{
    if es.len() > 0 {
        lemma_turns_seen_distinct(es.drop_last(), thread);
    }
}

/// The index of the tally for a turn.
fn find_tally(tallies: &Vec<TurnTally>, turn_id: &str) -> (found: Option<usize>)
    ensures
        match found {
            Some(k) => k < tallies@.len() && tallies@[k as int].turn_id@ == turn_id@,
            None => forall|k: int|
                0 <= k < tallies@.len() ==> (#[trigger] tallies@[k]).turn_id@ != turn_id@,
        },
{
    let mut k: usize = 0;
    while k < tallies.len()
        invariant
            k <= tallies@.len(),
            forall|j: int| 0 <= j < k ==> (#[trigger] tallies@[j]).turn_id@ != turn_id@,
        decreases tallies@.len() - k,
    {
        if text::same(tallies[k].turn_id.as_str(), turn_id) {
            return Some(k);
        }
        k += 1;
    }
    None
}

/// Counts one envelope: a start or an end of one of the thread's turns.
fn note_envelope(
    tallies: &mut Vec<TurnTally>,
    thread_id: &str,
    envelope: &RuntimeEventEnvelope,
    Ghost(es): Ghost<Seq<EnvelopeView>>,
)
    requires
        tells_all(old(tallies)@, es, thread_id@),
        json::reads_at(envelope@.payload, 1),
    ensures
        tells_all(final(tallies)@, es.push(envelope@), thread_id@),
{
    let ghost all = es.push(envelope@);
    let ghost seen = turns_seen(es, thread_id@);
    let ghost seen_all = turns_seen(all, thread_id@);
    let ghost before = tallies@;
    assert(all.drop_last() =~= es);
    proof {
        reveal_strlit("turn_start");
        reveal_strlit("turn_end");
        lemma_turns_seen_distinct(es, thread_id@);
    }
    if !text::same(envelope.thread_id.as_str(), thread_id) {
        assert(seen_all == seen);
        return;
    }
    let turn_id = match &envelope.turn_id {
        Some(turn_id) => turn_id,
        None => {
            assert(seen_all == seen);
            return;
        },
    };
    let started = text::same(envelope.event.as_str(), TURN_START);
    if !started && !text::same(envelope.event.as_str(), TURN_END) {
        assert(seen_all == seen);
        return;
    }
    let at: usize = match find_tally(tallies, turn_id.as_str()) {
        Some(k) => {
            assert(seen[k as int] == turn_id@);
            k
        },
        None => {
            proof {
                assert forall|k: int| 0 <= k < seen.len() implies seen[k] != turn_id@ by {
                    assert(tallies@[k].turn_id@ == seen[k]);
                }
                lemma_unseen(es, thread_id@, turn_id@);
            }
            tallies.push(
                TurnTally { turn_id: turn_id.clone(), starts: 0, ends: 0, workspace: None },
            );
            tallies.len() - 1
        },
    };
    let ghost mid = tallies@;
    assert(seen_all[at as int] == turn_id@);
    assert forall|k: int| 0 <= k < mid.len() implies tells(mid[k], es, thread_id@, seen_all[k]) by {
        if k < before.len() {
            assert(tells(before[k], es, thread_id@, seen[k]));
        }
    }
    if started {
        let count: usize = tallies[at].starts;
        tallies[at].starts = count.saturating_add(1);
        if tallies[at].workspace.is_none() {
            tallies[at].workspace = json::entry(&envelope.payload, "workspace");
        }
    } else {
        let count: usize = tallies[at].ends;
        tallies[at].ends = count.saturating_add(1);
    }
    proof {
        lemma_turns_seen_distinct(all, thread_id@);
        assert forall|k: int| 0 <= k < tallies@.len() implies tells(
            #[trigger] tallies@[k],
            all,
            thread_id@,
            seen_all[k],
        ) by {
            assert(tells(mid[k], es, thread_id@, seen_all[k]));
            assert(TURN_START@.len() != TURN_END@.len());
            assert(all.last() == envelope@);
            if k != at {
                assert(seen_all[k] != seen_all[at as int]);
            }
        }
    }
}

/// A line behind complete lines is the last line once it has its line feed, and
/// no line before.
pub proof fn lemma_lines_push(before: Seq<u8>, line: Seq<u8>)
    requires
        durability::complete(before),
        durability::torn(line),
    ensures
        lines_of(before + line.push(10)) == lines_of(before).push(line),
        lines_of(before + line) == lines_of(before),
{
    let rest = before + line;
    let longer = before + line.push(10);
    append::lemma_last_newline_is(longer, longer.len() - 1);
    assert(longer.take(longer.len() - 1) =~= rest);
    assert forall|i: int| before.len() <= i < rest.len() implies rest[i] != 10 by {
        assert(rest[i] == line[i - before.len()]);
    }
    if before.len() > 0 {
        assert(rest[before.len() - 1] == before.last());
    }
    append::lemma_last_newline_is(rest, before.len() - 1);
    append::lemma_last_newline_is(before, before.len() - 1);
    assert(rest.take(before.len() as int) =~= before);
    assert(rest.skip(before.len() as int) =~= line);
    if before.len() > 0 {
        assert(rest.take(before.len() - 1) =~= before.take(before.len() - 1));
    }
}

/// Reads the envelope on one line.
fn read_line(line: &[u8]) -> (envelope: Option<RuntimeEventEnvelope>)
    ensures
        match envelope {
            Some(e) => line_envelope(line@) == Some(e@) && json::reads_at(e@.payload, 1),
            None => line_envelope(line@) is None,
        },
{
    let decoded = text::utf8_text(line)?;
    let trimmed = text::trim(decoded.as_str());
    if trimmed.as_str().is_empty() {
        None
    } else {
        envelope::decode_line(trimmed.as_str())
    }
}

/// Whether a clock never reports that the deadline has passed.
pub open spec fn never_passes<F: Fn() -> bool>(deadline_passed: F) -> bool {
    forall|passed: bool| #[trigger] deadline_passed.ensures((), passed) ==> !passed
}

/// Whether a clock always reports that the deadline has passed.
pub open spec fn always_passes<F: Fn() -> bool>(deadline_passed: F) -> bool {
    forall|passed: bool| #[trigger] deadline_passed.ensures((), passed) ==> passed
}

/// Counts the starts and ends of a thread's turns, line by line. There is no
/// count when the deadline passes before the last line.
fn scan_lines<F: Fn() -> bool>(
    bytes: &Vec<u8>,
    thread_id: &str,
    deadline_passed: &F,
) -> (tallies: Option<Vec<TurnTally>>)
    requires
        deadline_passed.requires(()),
    ensures
        match tallies {
            Some(tallies) => tells_all(tallies@, envelopes_on(lines_of(bytes@)), thread_id@),
            None => !never_passes(*deadline_passed),
        },
        always_passes(*deadline_passed) && lines_of(bytes@).len() > 0 ==> tallies is None,
{
    let mut tallies: Vec<TurnTally> = Vec::new();
    let len: usize = bytes.len();
    let end: usize = match append::find_last_newline(bytes, 0, len) {
        Some(at) => at + 1,
        None => 0,
    };
    let mut from: usize = 0;
    let ghost mut scanned: int = 0;
    proof {
        assert(bytes@.subrange(0, len as int) =~= bytes@);
        append::lemma_last_newline(bytes@);
        append::lemma_last_newline_is(bytes@.take(0), -1);
        assert(lines_of(bytes@).take(0) =~= Seq::empty());
    }
    while from < end
        invariant
            from <= end <= bytes@.len(),
            end == append::last_newline(bytes@) + 1,
            end > 0 ==> bytes@[end - 1] == 10,
            deadline_passed.requires(()),
            always_passes(*deadline_passed) ==> from == 0,
            durability::complete(bytes@.take(from as int)),
            lines_of(bytes@.take(from as int)).is_prefix_of(lines_of(bytes@)),
            from == 0 ==> scanned == 0,
            scanned == lines_of(bytes@.take(from as int)).len(),
            tells_all(tallies@, envelopes_on(lines_of(bytes@).take(scanned)), thread_id@),
        decreases end - from,
    {
        if deadline_passed() {
            return None;
        }
        assert(!always_passes(*deadline_passed));
        let mut to: usize = from;
        while to + 1 < end && bytes[to] != 10
            invariant
                from <= to < end <= bytes@.len(),
                forall|i: int| from <= i < to ==> bytes@[i] != 10,
            decreases end - to,
        {
            to += 1;
        }
        let ghost line = bytes@.subrange(from as int, to as int);
        let ghost before = bytes@.take(from as int);
        let ghost lines = lines_of(bytes@).take(scanned);
        let ghost es = envelopes_on(lines);
        let next: usize = to + 1;
        proof {
            lemma_lines_push(before, line);
            assert(bytes@.take(next as int) =~= before + line.push(10));
            lemma_lines_of_prefix(bytes@, next as int);
            assert(lines_of(bytes@)[scanned] == lines_of(bytes@.take(next as int))[scanned]);
            assert(lines_of(bytes@).take(scanned + 1) =~= lines.push(line));
            assert(lines.push(line).drop_last() =~= lines);
        }
        if let Some(envelope) = read_line(vstd::slice::slice_subrange(bytes.as_slice(), from, to)) {
            note_envelope(&mut tallies, thread_id, &envelope, Ghost(es));
        }
        from = next;
        proof {
            scanned = scanned + 1;
        }
    }
    proof {
        let rest = bytes@.skip(end as int);
        append::lemma_last_newline(bytes@);
        lemma_lines_push(bytes@.take(end as int), rest);
        assert(bytes@.take(end as int) + rest =~= bytes@);
        assert(lines_of(bytes@).take(scanned) =~= lines_of(bytes@));
    }
    Some(tallies)
}

/// The lines of a prefix that ends with a line feed are the first lines.
pub proof fn lemma_lines_of_prefix(bytes: Seq<u8>, n: int)
    requires
        0 <= n <= bytes.len(),
        durability::complete(bytes.take(n)),
    ensures
        lines_of(bytes.take(n)).is_prefix_of(lines_of(bytes)),
    decreases bytes.len(),
{
    let part = bytes.take(n);
    append::lemma_last_newline_is(part, n - 1);
    if n > 0 {
        assert(part.last() == bytes[n - 1]);
        let end = append::last_newline(bytes);
        append::lemma_last_newline(bytes);
        assert(end >= n - 1);
        let body = bytes.take(end);
        if end == n - 1 {
            assert(part.take(n - 1) =~= body);
        } else {
            let at = append::last_newline(body);
            append::lemma_last_newline(body);
            assert(body[n - 1] == 10);
            assert(at >= n - 1);
            let shorter = body.take(at + 1);
            assert(shorter.take(n) =~= part);
            lemma_lines_of_prefix(shorter, n);
        }
    }
}

/// The file after each of `written` was appended in turn.
pub open spec fn file_after(before: Seq<u8>, written: Seq<EnvelopeView>) -> Seq<u8>
    decreases written.len(),
{
    if written.len() == 0 {
        before
    } else {
        let earlier = file_after(before, written.drop_last());
        earlier.take(append::recovery(earlier, true).keep) + append::record(written.last())
    }
}

/// Whether appending `event` to `file` writes the line of `e`, which is read back
/// as `e`.
pub open spec fn writes(file: Seq<u8>, event: EventView, e: EnvelopeView) -> bool {
    &&& append::recovery(file, true).next is Ok
    &&& append::carries(e, append::recovery(file, true).next->Ok_0, event)
    &&& append::fits(e)
    &&& append::readable(e)
}

/// Whether appending `event` to `file` fails with `error`.
pub open spec fn refuses(file: Seq<u8>, event: EventView, error: OutboxError) -> bool {
    match append::recovery(file, true).next {
        Ok(seq) => exists|e: EnvelopeView| #[trigger]
            append::carries(e, seq, event) && !append::fits(e) && error
                == (OutboxError::LineTooLong { bytes: append::record_bytes(e) }),
        Err(reason) => error == reason,
    }
}

/// Whether `written` are the envelopes for the first events, appended in turn.
pub open spec fn written_for(
    before: Seq<u8>,
    events: Seq<EventView>,
    written: Seq<EnvelopeView>,
) -> bool {
    &&& written.len() <= events.len()
    &&& forall|i: int|
        0 <= i < written.len() ==> writes(
            file_after(before, written.take(i)),
            events[i],
            #[trigger] written[i],
        )
}

/// The events that end the interrupted turns among the first `considered` turns
/// of a thread.
pub open spec fn repairs(
    bytes: Seq<u8>,
    thread: Seq<char>,
    reason: Seq<char>,
    considered: int,
) -> Seq<EventView> {
    let es = envelopes_on(lines_of(bytes));
    interruptions(
        interrupted_among(turns_seen(es, thread).take(considered), es, thread),
        es,
        thread,
        reason,
    )
}

/// How many turns a thread started or ended in a file.
pub open spec fn turn_count(bytes: Seq<u8>, thread: Seq<char>) -> nat {
    turns_seen(envelopes_on(lines_of(bytes)), thread).len()
}

/// The events that end all interrupted turns of a thread.
pub open spec fn all_repairs(
    bytes: Seq<u8>,
    thread: Seq<char>,
    reason: Seq<char>,
) -> Seq<EventView> {
    repairs(bytes, thread, reason, turn_count(bytes, thread) as int)
}

/// What a reconciliation does that has `events` to append and writes `written`:
/// each event is appended in turn, until one cannot be.
pub open spec fn reconciles(
    before: Seq<u8>,
    after: Seq<u8>,
    events: Seq<EventView>,
    written: Seq<EnvelopeView>,
    result: Result<usize, OutboxError>,
) -> bool {
    &&& written_for(before, events, written)
    &&& match result {
        Ok(count) => count == events.len() && written.len() == events.len() && after == file_after(
            before,
            written,
        ),
        Err(error) => written.len() < events.len() && refuses(
            file_after(before, written),
            events[written.len() as int],
            error,
        ) && after == file_after(before, written).take(
            append::recovery(file_after(before, written), true).keep,
        ),
    }
}

proof fn lemma_written_push(
    before: Seq<u8>,
    events: Seq<EventView>,
    written: Seq<EnvelopeView>,
    event: EventView,
    e: EnvelopeView,
)
    requires
        written_for(before, events, written),
        written.len() == events.len(),
        writes(file_after(before, written), event, e),
    ensures
        written_for(before, events.push(event), written.push(e)),
        file_after(before, written.push(e)) == file_after(before, written).take(
            append::recovery(file_after(before, written), true).keep,
        ) + append::record(e),
{
    let longer = written.push(e);
    assert(longer.drop_last() =~= written);
    assert forall|i: int| 0 <= i < longer.len() implies writes(
        file_after(before, longer.take(i)),
        events.push(event)[i],
        #[trigger] longer[i],
    ) by {
        if i < written.len() {
            assert(longer.take(i) =~= written.take(i));
            assert(longer[i] == written[i]);
        } else {
            assert(longer.take(i) =~= written);
        }
    }
}

/// Whether a reconciliation that had the turns of a file to consider, with this
/// clock, came to `result` and left `after`: it appended the ends for the first
/// turns, as many as the clock left time for. Those are all of them if the
/// deadline never passes, and none if it has passed; then the file is as it was.
pub open spec fn reconciles_in_time<F: Fn() -> bool>(
    before: OutboxFile,
    thread: Seq<char>,
    reason: Seq<char>,
    deadline_passed: F,
    result: Result<usize, OutboxError>,
    after: OutboxFile,
) -> bool {
    &&& exists|considered: int, written: Seq<EnvelopeView>| #[trigger]
        reconciles(
            before@,
            after@,
            repairs(before@, thread, reason, considered),
            written,
            result,
        ) && 0 <= considered <= turn_count(before@, thread) && (never_passes(deadline_passed)
            ==> considered == turn_count(before@, thread)) && (always_passes(deadline_passed)
            ==> considered == 0)
    &&& always_passes(deadline_passed) ==> result == Ok::<usize, OutboxError>(0) && after == before
}

/// Appends the end of one interrupted turn, and returns its envelope.
fn end_turn(
    file: &mut OutboxFile,
    thread_id: &str,
    reason: &str,
    tally: &TurnTally,
) -> (result: Result<RuntimeEventEnvelope, OutboxError>)
    requires
        old(file).wf(),
        old(file).whole(),
        reads_in_payload(tally.workspace),
    ensures
        ({
            let event = interruption(
                thread_id@,
                reason@,
                tally.turn_id@,
                json::optional_text(tally.workspace),
            );
            let kept = old(file)@.take(append::recovery(old(file)@, true).keep);
            match result {
                Ok(e) => writes(old(file)@, event, e@) && final(file)@ == kept + append::record(e@),
                Err(error) => refuses(old(file)@, event, error) && final(file)@ == kept,
            }
        }),
        final(file).wf(),
        final(file).settles_as(*old(file)),
{
    let event = interruption_event(thread_id, reason, tally.turn_id.as_str(), &tally.workspace);
    let (envelope, append_result) = match append::append_event_under_lock(file, event) {
        Ok(appended) => appended,
        Err(error) => return Err(error),
    };
    assert(append::carries(
        envelope@,
        append::recovery(old(file)@, true).next->Ok_0,
        event@,
    ));
    match append_result {
        Ok(()) => Ok(envelope),
        Err(error) => Err(error),
    }
}

/// Appends an end for each interrupted turn of a scan, and returns how many it
/// appended. Before each turn the clock is asked; once the deadline has passed it
/// stops where it is.
#[verifier::rlimit(50)]
fn end_interrupted_turns<F: Fn() -> bool>(
    file: &mut OutboxFile,
    thread_id: &str,
    reason: &str,
    tallies: &Vec<TurnTally>,
    deadline_passed: &F,
) -> (result: Result<usize, OutboxError>)
    requires
        old(file).wf(),
        old(file).whole(),
        deadline_passed.requires(()),
        tells_all(tallies@, envelopes_on(lines_of(old(file)@)), thread_id@),
    ensures
        reconciles_in_time(
            *old(file),
            thread_id@,
            reason@,
            *deadline_passed,
            result,
            *final(file),
        ),
        final(file).wf(),
        final(file).settles_as(*old(file)),
{
    let ghost before = file@;
    let ghost es = envelopes_on(lines_of(before));
    let ghost seen = turns_seen(es, thread_id@);
    let ghost mut written: Seq<EnvelopeView> = Seq::empty();
    let ghost mut events = repairs(before, thread_id@, reason@, 0);
    assert(events =~= Seq::empty());
    let mut reconciled: usize = 0;
    let mut j: usize = 0;
    while j < tallies.len()
        invariant
            j <= tallies@.len(),
            deadline_passed.requires(()),
            always_passes(*deadline_passed) ==> j == 0,
            j == 0 ==> *file == *old(file),
            es == envelopes_on(lines_of(before)),
            seen == turns_seen(es, thread_id@),
            tells_all(tallies@, es, thread_id@),
            events == repairs(before, thread_id@, reason@, j as int),
            written_for(before, events, written),
            written.len() == events.len(),
            reconciled == events.len(),
            events.len() <= j,
            file@ == file_after(before, written),
            file.wf(),
            file.settles_as(*old(file)),
            old(file).wf(),
            old(file).whole(),
            before == old(file)@,
        decreases tallies@.len() - j,
    {
        if deadline_passed() {
            assert(!never_passes(*deadline_passed));
            assert(reconciles(before, file@, events, written, Ok(reconciled)));
            return Ok(reconciled);
        }
        assert(!always_passes(*deadline_passed));
        let tally = &tallies[j];
        let ghost turn = seen[j as int];
        assert(tells(tallies@[j as int], es, thread_id@, turn));
        assert(seen.take(j + 1).drop_last() =~= seen.take(j as int));
        let ghost later = repairs(before, thread_id@, reason@, j + 1);
        if tally.starts == 1 && tally.ends == 0 {
            let ghost event = interruption(
                thread_id@,
                reason@,
                turn,
                workspace(es, thread_id@, turn),
            );
            assert(later =~= events.push(event));
            assert(later[events.len() as int] == event);
            let ghost current = *file;
            let ended = end_turn(file, thread_id, reason, tally);
            proof {
                append::lemma_settles_twice(*old(file), current, *file);
            }
            match ended {
                Err(error) => {
                    proof {
                        lemma_written_prefix(before, events, written, event);
                        assert(reconciles(before, file@, later, written, Err(error)));
                        lemma_refused_in_all(
                            before,
                            file@,
                            thread_id@,
                            reason@,
                            j + 1,
                            written,
                            error,
                        );
                    }
                    return Err(error);
                },
                Ok(e) => {
                    proof {
                        lemma_written_push(before, events, written, event, e@);
                        written = written.push(e@);
                    }
                },
            }
            reconciled += 1;
        } else {
            assert(later =~= events);
        }
        proof {
            events = later;
        }
        j += 1;
    }
    proof {
        assert(reconciles(before, file@, events, written, Ok(reconciled)));
    }
    Ok(reconciled)
}

/// Scans the file for the turns that `thread_id` started once and never ended,
/// and appends a synthetic end for each. Returns how many it appended.
///
/// Only that shape is repaired: a turn with several starts can never be paired
/// again. Between lines and between turns the clock is asked; once the deadline
/// has passed the reconciliation stops where it is, and what it has appended
/// stays. A scan that was cut short repairs nothing, since it has not seen the
/// ends further on. The caller holds the outbox's lock across the call.
pub fn reconcile_interrupted_turns_under_lock<F: Fn() -> bool>(
    file: &mut OutboxFile,
    thread_id: &str,
    reason: &str,
    deadline_passed: &F,
) -> (result: Result<usize, OutboxError>)
    requires
        old(file).wf(),
        old(file).whole(),
        deadline_passed.requires(()),
    ensures
        reconciles_in_time(
            *old(file),
            thread_id@,
            reason@,
            *deadline_passed,
            result,
            *final(file),
        ),
        final(file).wf(),
        final(file).settles_as(*old(file)),
{
    match scan_lines(&file.bytes, thread_id, deadline_passed) {
        Some(tallies) => end_interrupted_turns(
            file,
            thread_id,
            reason,
            &tallies,
            deadline_passed,
        ),
        None => {
            let ghost none = repairs(file@, thread_id@, reason@, 0);
            assert(none =~= Seq::empty());
            assert(reconciles(file@, file@, none, Seq::empty(), Ok(0)));
            Ok(0)
        },
    }
}

proof fn lemma_interrupted_prefix(
    turns: Seq<Seq<char>>,
    n: int,
    es: Seq<EnvelopeView>,
    thread: Seq<char>,
)
    requires
        0 <= n <= turns.len(),
    ensures
        interrupted_among(turns.take(n), es, thread).is_prefix_of(
            interrupted_among(turns, es, thread),
        ),
    decreases turns.len(),
{
    if n == turns.len() {
        assert(turns.take(n) =~= turns);
    } else {
        lemma_interrupted_prefix(turns.drop_last(), n, es, thread);
        assert(turns.drop_last().take(n) =~= turns.take(n));
    }
}

/// A failed reconciliation fails in the same way however many turns would still
/// have been considered.
proof fn lemma_refused_in_all(
    before: Seq<u8>,
    after: Seq<u8>,
    thread: Seq<char>,
    reason: Seq<char>,
    considered: int,
    written: Seq<EnvelopeView>,
    error: OutboxError,
)
    requires
        0 <= considered <= turns_seen(envelopes_on(lines_of(before)), thread).len(),
        reconciles(
            before,
            after,
            repairs(before, thread, reason, considered),
            written,
            Err(error),
        ),
    ensures
        reconciles(
            before,
            after,
            repairs(
                before,
                thread,
                reason,
                turns_seen(envelopes_on(lines_of(before)), thread).len() as int,
            ),
            written,
            Err(error),
        ),
{
    let es = envelopes_on(lines_of(before));
    let seen = turns_seen(es, thread);
    let some = repairs(before, thread, reason, considered);
    let all = repairs(before, thread, reason, seen.len() as int);
    assert(seen.take(seen.len() as int) =~= seen);
    lemma_interrupted_prefix(seen, considered, es, thread);
    assert forall|i: int| 0 <= i < some.len() implies all[i] == some[i] by {
        assert(interrupted_among(seen.take(considered), es, thread)[i] == interrupted_among(
            seen,
            es,
            thread,
        )[i]);
    }
    assert forall|i: int| 0 <= i < written.len() implies writes(
        file_after(before, written.take(i)),
        all[i],
        #[trigger] written[i],
    ) by {
        assert(writes(file_after(before, written.take(i)), some[i], written[i]));
    }
}

proof fn lemma_written_prefix(
    before: Seq<u8>,
    events: Seq<EventView>,
    written: Seq<EnvelopeView>,
    event: EventView,
)
    requires
        written_for(before, events, written),
    ensures
        written_for(before, events.push(event), written),
{
    assert forall|i: int| 0 <= i < written.len() implies writes(
        file_after(before, written.take(i)),
        events.push(event)[i],
        #[trigger] written[i],
    ) by {
        assert(writes(file_after(before, written.take(i)), events[i], written[i]));
    }
}

} // verus!
