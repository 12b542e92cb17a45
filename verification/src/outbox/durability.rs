//! What an outbox file keeps across appends and crashes: the laws of recovery.
use vstd::prelude::*;

use crate::outbox::append;
use crate::outbox::append::{SEQ_RECOVERY_REACH_BYTES, SEQ_RECOVERY_TAIL_BYTES};
use crate::outbox::envelope;
use crate::outbox::error::OutboxError;
use crate::text;

verus! {

proof fn lemma_scalar_without_newline(c: u32)
    requires
        c != 10,
    ensures
        forall|i: int|
            0 <= i < vstd::utf8::encode_scalar(c).len() ==> vstd::utf8::encode_scalar(c)[i] != 10,
{
    assert(c <= 0x7f && c != 10 ==> (c & 0x7f) as u8 != 10) by (bit_vector);
    assert(0xc0u8 | ((c >> 6) & 0x1f) as u8 != 10) by (bit_vector);
    assert(0xe0u8 | ((c >> 12) & 0x0f) as u8 != 10) by (bit_vector);
    assert(0xf0u8 | ((c >> 18) & 0x7) as u8 != 10) by (bit_vector);
    assert(0x80u8 | (c & 0x3f) as u8 != 10) by (bit_vector);
    assert(0x80u8 | ((c >> 6) & 0x3f) as u8 != 10) by (bit_vector);
    assert(0x80u8 | ((c >> 12) & 0x3f) as u8 != 10) by (bit_vector);
}

/// Text without a line feed is encoded without one.
pub proof fn lemma_encoded_without_newline(s: Seq<char>)
    requires
        !s.contains('\n'),
    ensures
        forall|i: int|
            0 <= i < vstd::utf8::encode_utf8(s).len() ==> vstd::utf8::encode_utf8(s)[i] != 10,
    decreases s.len(),
{
    if s.len() > 0 {
        assert(s.contains(s[0]));
        vstd::utf8::char_u32_cast(s[0], s[0] as u32);
        lemma_scalar_without_newline(s[0] as u32);
        assert forall|c: char| s.drop_first().contains(c) implies s.contains(c) by {
            let i = choose|i: int| 0 <= i < s.drop_first().len() && s.drop_first()[i] == c;
            assert(s[i + 1] == c);
        }
        lemma_encoded_without_newline(s.drop_first());
        let first = vstd::utf8::encode_scalar(s[0] as u32);
        let rest = vstd::utf8::encode_utf8(s.drop_first());
        assert(vstd::utf8::encode_utf8(s) =~= first + rest);
        assert forall|i: int| 0 <= i < (first + rest).len() implies (first + rest)[i] != 10 by {
            if i < first.len() {
                assert((first + rest)[i] == first[i]);
            } else {
                assert((first + rest)[i] == rest[i - first.len()]);
            }
        }
    }
}

proof fn lemma_trim_end_keeps(s: Seq<char>)
    requires
        s.len() > 0,
        !text::is_white(s[0]),
    ensures
        text::trim_end(s).len() > 0,
    decreases s.len(),
{
    if text::is_white(s.last()) {
        lemma_trim_end_keeps(s.drop_last());
    }
}

/// The line of an envelope starts with a brace, so it is not blank.
pub proof fn lemma_line_not_blank(e: envelope::EnvelopeView)
    ensures
        text::trimmed(envelope::envelope_line(e)).len() > 0,
{
    let line = envelope::envelope_line(e);
    assert(line[0] == '{');
    lemma_trim_end_keeps(line);
}

/// Bytes that are empty or end with a line feed.
pub open spec fn complete(bytes: Seq<u8>) -> bool {
    bytes.len() == 0 || bytes.last() == 10
}

/// Bytes of a line whose line feed was never written.
pub open spec fn torn(bytes: Seq<u8>) -> bool {
    forall|i: int| 0 <= i < bytes.len() ==> bytes[i] != 10
}

/// What is appended is what the next recovery continues from, and a line that
/// was torn after it is cut off, as long as that one is shorter than the window:
/// every torn line is, since no line is longer than the ceiling.
pub proof fn law_recovery_continues_after_append(
    before: Seq<u8>,
    e: envelope::EnvelopeView,
    rest: Seq<u8>,
    whole: bool,
)
    requires
        complete(before),
        append::fits(e),
        append::readable(e),
        torn(rest),
        rest.len() < SEQ_RECOVERY_TAIL_BYTES,
    ensures
        append::recovery(before + append::record(e) + rest, whole) == (append::Recovery {
            keep: (before.len() + append::record(e).len()) as int,
            next: Ok(append::next_seq(e.seq)),
        }),
{
    let line = envelope::envelope_line(e);
    let encoded = vstd::utf8::encode_utf8(line);
    let kept = before + append::record(e);
    lemma_encoded_without_newline(line);
    assert(kept.last() == 10);
    law_torn_line_is_cut_off(kept, rest, whole);
    assert((kept + rest).take(kept.len() as int) =~= kept);
    let from = append::window_start(kept.len());
    let body = kept.skip(from).drop_last();
    let at = before.len() - from - 1;
    assert forall|i: int| at < i < body.len() implies body[i] != 10 by {
        assert(body[i] == encoded[i - at - 1]);
    }
    if at >= 0 {
        assert(body[at] == before.last());
    }
    append::lemma_last_newline_is(body, at);
    assert(append::last_line(kept) =~= encoded);
    vstd::utf8::encode_utf8_valid_utf8(line);
    vstd::utf8::encode_utf8_decode_utf8(line);
    lemma_line_not_blank(e);
}

/// A torn last line shorter than the recovery window is cut off, and nothing
/// else: the complete lines stay, whatever they hold. Such a file is never
/// refused for want of a complete line.
pub proof fn law_torn_line_is_cut_off(lines: Seq<u8>, rest: Seq<u8>, whole: bool)
    requires
        complete(lines),
        torn(rest),
        rest.len() < SEQ_RECOVERY_TAIL_BYTES,
        whole || lines.len() > 0,
    ensures
        append::recovery(lines + rest, whole).keep == lines.len(),
        append::recovery(lines + rest, whole).next != Err::<u64, OutboxError>(
            OutboxError::NoCompleteLine,
        ),
{
    let bytes = lines + rest;
    let from = append::window_start(bytes.len());
    let tail = bytes.skip(from);
    let end = lines.len() - from - 1;
    assert forall|i: int| end < i < tail.len() implies tail[i] != 10 by {
        assert(tail[i] == rest[i - end - 1]);
    }
    if end >= 0 {
        assert(tail[end] == lines.last());
    }
    append::lemma_last_newline_is(tail, end);
}

/// Recovery keeps every complete line: no line feed is ever cut off. Unless it
/// refuses the file, what it leaves is empty or ends with a line feed.
pub proof fn law_recovery_keeps_complete_lines(bytes: Seq<u8>, whole: bool)
    requires
        whole || bytes.len() >= SEQ_RECOVERY_TAIL_BYTES,
    ensures
        0 <= append::recovery(bytes, whole).keep <= bytes.len(),
        forall|i: int| 0 <= i < bytes.len() && bytes[i] == 10 ==> i < append::recovery(
            bytes,
            whole,
        ).keep,
        append::recovery(bytes, whole).next != Err::<u64, OutboxError>(OutboxError::NoCompleteLine)
            ==> complete(bytes.take(append::recovery(bytes, whole).keep)),
        append::recovery(bytes, whole).next == Err::<u64, OutboxError>(OutboxError::NoCompleteLine)
            ==> append::recovery(bytes, whole).keep == bytes.len(),
{
    let from = append::window_start(bytes.len());
    let tail = bytes.skip(from);
    let end = append::last_newline(tail);
    append::lemma_last_newline(tail);
    assert forall|i: int| 0 <= i < bytes.len() && bytes[i] == 10 implies i < append::recovery(
        bytes,
        whole,
    ).keep by {
        if i >= from {
            assert(tail[i - from] == 10);
        }
    }
}

/// Recovering twice changes nothing more: what the first recovery leaves, the
/// second leaves as it is, and it finds the same number. So an append that is
/// refused for its length costs nothing.
pub proof fn law_recovery_is_idempotent(bytes: Seq<u8>)
    ensures
        append::recovery(bytes.take(append::recovery(bytes, true).keep), true)
            == append::recovery(bytes, true),
{
    let first = append::recovery(bytes, true);
    let kept = bytes.take(first.keep);
    let tail = bytes.skip(append::window_start(bytes.len()));
    append::lemma_last_newline(tail);
    if append::last_newline(tail) >= 0 {
        let from = append::window_start(kept.len());
        append::lemma_last_newline_is(kept.skip(from), kept.len() - from - 1);
        assert(kept.take(kept.len() as int) =~= kept);
    } else {
        assert(kept =~= bytes || kept.len() == 0);
    }
}

/// The file that holds the lines of `envelopes`.
pub open spec fn history(envelopes: Seq<envelope::EnvelopeView>) -> Seq<u8>
    decreases envelopes.len(),
{
    if envelopes.len() == 0 {
        Seq::empty()
    } else {
        history(envelopes.drop_last()) + append::record(envelopes.last())
    }
}

/// Envelopes whose lines can be appended and read back, numbered from 1.
pub open spec fn numbered(envelopes: Seq<envelope::EnvelopeView>) -> bool {
    forall|i: int|
        0 <= i < envelopes.len() ==> append::fits(#[trigger] envelopes[i]) && append::readable(
            envelopes[i],
        ) && envelopes[i].seq == i + 1
}

proof fn lemma_history_complete(envelopes: Seq<envelope::EnvelopeView>)
    ensures
        complete(history(envelopes)),
{
    if envelopes.len() > 0 {
        assert(history(envelopes).last() == append::record(envelopes.last()).last());
    }
}

/// What recovery finds in a file that readable events were appended to: the
/// history stays, the torn line goes, and the next number follows the last one.
pub proof fn law_recovery_of_history(envelopes: Seq<envelope::EnvelopeView>, rest: Seq<u8>)
    requires
        envelopes.len() > 0 ==> append::fits(envelopes.last()) && append::readable(
            envelopes.last(),
        ),
        torn(rest),
        rest.len() < SEQ_RECOVERY_TAIL_BYTES,
    ensures
        append::recovery(history(envelopes) + rest, true) == (append::Recovery {
            keep: history(envelopes).len() as int,
            next: Ok(
                if envelopes.len() == 0 {
                    1
                } else {
                    append::next_seq(envelopes.last().seq)
                },
            ),
        }),
{
    if envelopes.len() == 0 {
        assert(history(envelopes) + rest =~= rest);
        let from = append::window_start(rest.len());
        append::lemma_last_newline_is(rest.skip(from), -1);
    } else {
        let before = history(envelopes.drop_last());
        lemma_history_complete(envelopes.drop_last());
        law_recovery_continues_after_append(before, envelopes.last(), rest, true);
    }
}

/// Envelopes that stand in the order of their numbers, no number twice.
pub open spec fn increasing(envelopes: Seq<envelope::EnvelopeView>) -> bool {
    forall|i: int, j: int|
        0 <= i < j < envelopes.len() ==> (#[trigger] envelopes[i]).seq < (
        #[trigger] envelopes[j]).seq
}

/// Sequence numbers are unique and increase in file order: the envelope that
/// carries an event under the recovered number stands behind all others. The
/// largest number of all has no successor.
pub proof fn law_sequence_numbers_increase(
    envelopes: Seq<envelope::EnvelopeView>,
    rest: Seq<u8>,
    event: envelope::EventView,
    e: envelope::EnvelopeView,
)
    requires
        increasing(envelopes),
        envelopes.len() > 0 ==> append::fits(envelopes.last()) && append::readable(
            envelopes.last(),
        ) && envelopes.last().seq < u64::MAX,
        torn(rest),
        rest.len() < SEQ_RECOVERY_TAIL_BYTES,
        append::carries(e, append::recovery(history(envelopes) + rest, true).next->Ok_0, event),
    ensures
        increasing(envelopes.push(e)),
        (history(envelopes) + rest).take(append::recovery(history(envelopes) + rest, true).keep)
            + append::record(e) == history(envelopes.push(e)),
{
    law_recovery_of_history(envelopes, rest);
    assert((history(envelopes) + rest).take(history(envelopes).len() as int)
        =~= history(envelopes));
    let longer = envelopes.push(e);
    assert(longer.drop_last() =~= envelopes);
    assert forall|i: int, j: int| 0 <= i < j < longer.len() implies (#[trigger] longer[i]).seq < (
    #[trigger] longer[j]).seq by {
        if j < envelopes.len() {
            assert(longer[i] == envelopes[i] && longer[j] == envelopes[j]);
        } else {
            assert(longer[i] == envelopes[i]);
            if i < envelopes.len() - 1 {
                assert(envelopes[i].seq < envelopes[envelopes.len() - 1].seq);
            }
        }
    }
}

/// A fresh file is numbered from 1 without a gap: the next append to a file of
/// `n` numbered events gets the number `n + 1`, whatever was torn in between.
pub proof fn law_fresh_file_is_numbered_from_one(
    envelopes: Seq<envelope::EnvelopeView>,
    rest: Seq<u8>,
    event: envelope::EventView,
    e: envelope::EnvelopeView,
)
    requires
        numbered(envelopes),
        envelopes.len() < u64::MAX,
        torn(rest),
        rest.len() < SEQ_RECOVERY_TAIL_BYTES,
        append::carries(e, append::recovery(history(envelopes) + rest, true).next->Ok_0, event),
        append::fits(e),
        append::readable(e),
    ensures
        e.seq == envelopes.len() + 1,
        numbered(envelopes.push(e)),
{
    if envelopes.len() > 0 {
        assert(append::readable(envelopes[envelopes.len() - 1]));
    }
    law_recovery_of_history(envelopes, rest);
    let longer = envelopes.push(e);
    assert forall|i: int| 0 <= i < longer.len() implies append::fits(#[trigger] longer[i])
        && append::readable(longer[i]) && longer[i].seq == i + 1 by {
        if i < envelopes.len() {
            assert(longer[i] == envelopes[i]);
        }
    }
}

/// The end of a file is enough for recovery: read from any offset that leaves
/// as much as recovery reaches back, it gives what the whole file gives.
pub proof fn law_tail_is_enough(file: Seq<u8>, offset: int)
    requires
        0 < offset,
        offset + SEQ_RECOVERY_REACH_BYTES <= file.len(),
    ensures
        append::recovery(file.skip(offset), false).next == append::recovery(file, true).next,
        offset + append::recovery(
            file.skip(offset),
            false,
        ).keep == append::recovery(file, true).keep,
{
    let tail = file.skip(offset);
    let from = append::window_start(tail.len());
    assert(tail.skip(from) =~= file.skip(append::window_start(file.len())));
    append::lemma_last_newline(tail.skip(from));
    if append::last_newline(tail.skip(from)) >= 0 {
        let keep = append::recovery(tail, false).keep;
        let part = tail.take(keep);
        let all = file.take(offset + keep);
        assert(part.skip(append::window_start(part.len())) =~= all.skip(
            append::window_start(all.len()),
        ));
    }
}

/// What recovery reads of a line: all of it, or its last 65535 bytes.
pub open spec fn end_of_line(line: Seq<u8>) -> Seq<u8> {
    if line.len() < 65536 {
        line
    } else {
        line.skip(line.len() - 65535)
    }
}

/// Whether a text holds nothing but white space.
pub open spec fn all_white(s: Seq<char>) -> bool {
    forall|i: int| 0 <= i < s.len() ==> text::is_white(#[trigger] s[i])
}

/// What a file's last complete line says decides the next number, whatever stands
/// before it and whatever torn line shorter than 65536 bytes stands behind it:
/// the number behind the one on the line, 1 where the line is blank, and none
/// where the line is not UTF-8 or is no envelope. All but the torn line stays. Of
/// a line longer than the recovery window only its end is read.
pub proof fn law_last_line_decides_the_number(
    before: Seq<u8>,
    line: Seq<u8>,
    rest: Seq<u8>,
    whole: bool,
)
    requires
        before.len() == 0 || before.last() == 10,
        forall|i: int| 0 <= i < line.len() ==> line[i] != 10,
        forall|i: int| 0 <= i < rest.len() ==> rest[i] != 10,
        rest.len() < 65536,
    ensures
        ({
            let found = append::recovery(before + line + seq![10u8] + rest, whole);
            let read = end_of_line(line);
            let t = vstd::utf8::decode_utf8(read);
            let blank = all_white(t);
            &&& found.keep == before.len() + line.len() + 1
            &&& !vstd::utf8::valid_utf8(read) ==> found.next == Err::<u64, OutboxError>(
                OutboxError::TailNotUtf8,
            )
            &&& vstd::utf8::valid_utf8(read) && blank ==> found.next == Ok::<u64, OutboxError>(1)
            &&& vstd::utf8::valid_utf8(read) && !blank && envelope::parsed(t) is None
                ==> found.next == Err::<u64, OutboxError>(OutboxError::LastLineUnparseable)
            &&& vstd::utf8::valid_utf8(read) && !blank && envelope::parsed(t) is Some ==> {
                let seq = envelope::parsed(t)->0.seq;
                &&& found.next is Ok
                &&& found.next->Ok_0 == if seq == u64::MAX {
                    seq as int
                } else {
                    seq + 1
                }
            }
        }),
{
    let kept = before + line + seq![10u8];
    let bytes = kept + rest;
    let read = end_of_line(line);
    assert(kept.last() == 10);
    law_torn_line_is_cut_off(kept, rest, whole);
    assert(bytes.take(kept.len() as int) =~= kept);
    let tail = bytes.skip(append::window_start(bytes.len()));
    append::lemma_last_newline(tail);
    let from = append::window_start(kept.len());
    let body = kept.skip(from).drop_last();
    let at = before.len() - from - 1;
    if at >= 0 {
        assert(body[at] == before.last());
        assert forall|i: int| at < i < body.len() implies body[i] != 10 by {
            assert(body[i] == line[i - at - 1]);
        }
        append::lemma_last_newline_is(body, at);
        assert(append::last_line(kept) =~= read);
    } else {
        assert forall|i: int| -1 < i < body.len() implies body[i] != 10 by {
            assert(body[i] == line[i - at - 1]);
        }
        append::lemma_last_newline_is(body, -1);
        assert(append::last_line(kept) =~= read);
    }
    text::law_trimming_takes_outer_white_space(vstd::utf8::decode_utf8(read));
    let found = append::recovery(bytes, whole);
    assert(found.keep == before.len() + line.len() + 1);
    assert(found.next == append::seq_after_line(read));
}

/// A file of at most 65536 bytes without any line feed is one torn line: nothing
/// of it stays, and numbering starts at 1. A longer one whose last 65536 bytes
/// hold no line feed is left alone, and nothing can be appended to it.
pub proof fn law_files_without_a_complete_line(bytes: Seq<u8>, whole: bool)
    requires
        forall|i: int|
            0 <= i < bytes.len() && bytes.len() - 65536 <= i ==> #[trigger] bytes[i] != 10,
    ensures
        ({
            let found = append::recovery(bytes, whole);
            if whole && bytes.len() <= 65536 {
                found.keep == 0 && found.next == Ok::<u64, OutboxError>(1)
            } else {
                found.keep == bytes.len() && found.next == Err::<u64, OutboxError>(
                    OutboxError::NoCompleteLine,
                )
            }
        }),
{
    let from = append::window_start(bytes.len());
    let tail = bytes.skip(from);
    assert forall|i: int| 0 <= i < tail.len() implies tail[i] != 10 by {
        assert(tail[i] == bytes[i + from]);
    }
    append::lemma_last_newline_is(tail, -1);
}

/// What an append does to a file of complete lines with a torn line shorter than
/// 65536 bytes behind them: the torn line goes, and the envelope's line stands in
/// its place, unless it is longer than 61440 bytes with its line feed.
pub proof fn law_append_replaces_the_torn_line(
    lines: Seq<u8>,
    rest: Seq<u8>,
    whole: bool,
    event: envelope::EventView,
    e: envelope::EnvelopeView,
    after: Seq<u8>,
)
    requires
        lines.len() == 0 || lines.last() == 10,
        whole || lines.len() > 0,
        forall|i: int| 0 <= i < rest.len() ==> rest[i] != 10,
        rest.len() < 65536,
        append::appends(lines + rest, whole, event, e, after),
    ensures
        ({
            let line = vstd::utf8::encode_utf8(envelope::envelope_line(e)) + seq![10u8];
            after == if line.len() <= 61440 {
                lines + line
            } else {
                lines
            }
        }),
        e.schema_version == 1,
        e.event == event.event,
        e.kind == event.kind,
        e.thread_id == event.thread_id,
        e.turn_id == event.turn_id,
        e.item_id == event.item_id,
        e.payload == event.payload,
{
    let line = vstd::utf8::encode_utf8(envelope::envelope_line(e)) + seq![10u8];
    law_torn_line_is_cut_off(lines, rest, whole);
    assert((lines + rest).take(lines.len() as int) =~= lines);
    assert(append::record(e) =~= line);
}

/// Writing out what is unsettled puts the image into the file: the bytes of the
/// file before the image stay, and behind them stands the image, whatever was
/// appended and cut off in between.
pub proof fn law_settling_writes_the_image(
    disk: Seq<u8>,
    before: append::OutboxFile,
    after: append::OutboxFile,
)
    requires
        before.offset <= disk.len(),
        before@ == disk.skip(before.offset as int),
        before.settled == before@.len(),
        after.wf(),
        after.settles_as(before),
    ensures
        after.offset == before.offset,
        after.settled <= after@.len(),
        after.settled <= before@.len(),
        disk.take(after.offset + after.settled) + after@.skip(after.settled as int) == disk.take(
            before.offset as int,
        ) + after@,
{
    let n = after.settled as int;
    let written = disk.take(after.offset + n) + after@.skip(n);
    let wanted = disk.take(before.offset as int) + after@;
    assert(after@.take(n) == before@.take(n));
    assert forall|i: int| 0 <= i < wanted.len() implies written[i] == wanted[i] by {
        let k = i - before.offset;
        if 0 <= k < n {
            assert(after@[k] == after@.take(n)[k]);
            assert(before@[k] == before@.take(n)[k]);
        }
    }
    assert(written =~= wanted);
}

/// Once only the first bytes stay, as many of them are settled as were settled
/// before, or all of them: no byte that the file holds is written again.
pub proof fn law_settled_bytes_stay_settled(file: append::OutboxFile, keep: int)
    ensures
        file.settled_within(keep) <= file.settled,
        file.settled_within(keep) <= keep,
        file.settled_within(keep) == file.settled || file.settled_within(keep) == keep,
{
}

} // verus!
