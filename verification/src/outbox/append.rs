//! Appending to an outbox file: recovering the next sequence number from the
//! end of the file, repairing a torn last line, and framing new lines.
use vstd::prelude::*;

use crate::outbox::envelope;
use crate::outbox::envelope::{LifecycleEvent, RuntimeEventEnvelope};
use crate::outbox::error::OutboxError;
use crate::json;
use crate::text;

verus! {

/// The recovery window: how far back from the end of the file the last line feed
/// is looked for, and how far back from there the start of the line that it
/// ends.
pub const SEQ_RECOVERY_TAIL_BYTES: u64 = 65536;

/// How far back from the end of the file the recovery of the last sequence
/// number reads at most: one window to the last line feed, and another one to
/// the start of its line.
pub const SEQ_RECOVERY_REACH_BYTES: u64 = 131072;

/// Hard ceiling for one line of the outbox, line feed included. It stays below
/// the recovery window, so that a window holds every complete line, and reaches
/// past all that a crash can leave of one.
pub const MAX_OUTBOX_LINE_BYTES: u64 = 61440;

/// The end of an outbox file, held in memory: everything from `offset` on.
///
/// `settled` counts the leading bytes that the file holds already; the bytes
/// behind them are still to be written.
pub struct OutboxFile {
    pub offset: u64,
    pub bytes: Vec<u8>,
    pub settled: usize,
}

impl View for OutboxFile {
    type V = Seq<u8>;

    open spec fn view(&self) -> Seq<u8> {
        self.bytes@
    }
}

impl OutboxFile {
    /// Whether this is the whole file.
    pub open spec fn whole(&self) -> bool {
        self.offset == 0
    }

    /// Whether the bytes held reach back as far as recovery does.
    pub open spec fn covers_window(&self) -> bool {
        self.whole() || self@.len() >= SEQ_RECOVERY_REACH_BYTES
    }

    /// No more bytes are settled than there are.
    pub open spec fn wf(&self) -> bool {
        self.settled <= self@.len()
    }

    /// How many bytes are settled once only `keep` bytes stay.
    pub open spec fn settled_within(&self, keep: int) -> int {
        if self.settled <= keep {
            self.settled as int
        } else {
            keep
        }
    }

    /// Whether what is settled here was settled in `before`: the file on disk, cut
    /// to the settled bytes, is a file that the rest can be written to.
    pub open spec fn settles_as(&self, before: OutboxFile) -> bool {
        &&& self.offset == before.offset
        &&& self.settled <= before.settled
        &&& self@.take(self.settled as int) == before@.take(self.settled as int)
    }

    /// The end of a file as it was read: everything is settled.
    pub fn load(offset: u64, bytes: Vec<u8>) -> (file: Self)
        ensures
            file.wf(),
            file.offset == offset,
            file@ == bytes@,
            file.settled == bytes@.len(),
    {
        let settled: usize = bytes.len();
        OutboxFile { offset, bytes, settled }
    }

    /// What is still to be written.
    pub fn unsettled(&self) -> (rest: &[u8])
        requires
            self.wf(),
        ensures
            rest@ == self@.skip(self.settled as int),
    {
        let len: usize = self.bytes.len();
        let rest = vstd::slice::slice_subrange(self.bytes.as_slice(), self.settled, len);
        assert(rest@ =~= self@.skip(self.settled as int));
        rest
    }

    /// Whether this is `before` after recovery has cut off a torn last line.
    pub open spec fn recovered_from(&self, before: OutboxFile) -> bool {
        let keep = recovery(before@, before.whole()).keep;
        &&& self@ == before@.take(keep)
        &&& self.offset == before.offset
        &&& self.settled == before.settled_within(keep)
    }
}

/// What was settled stays settled over two changes.
pub proof fn lemma_settles_twice(first: OutboxFile, second: OutboxFile, third: OutboxFile)
    requires
        first.wf(),
        second.wf(),
        third.wf(),
        second.settles_as(first),
        third.settles_as(second),
    ensures
        third.settles_as(first),
{
    let n = third.settled as int;
    let m = second.settled as int;
    assert(second@.take(n) =~= second@.take(m).take(n));
    assert(first@.take(n) =~= first@.take(m).take(n));
}

/// The index of the last line feed in `s`, or -1.
pub open spec fn last_newline(s: Seq<u8>) -> int
    decreases s.len(),
{
    if s.len() == 0 {
        -1
    } else if s.last() == 10 {
        s.len() - 1
    } else {
        last_newline(s.drop_last())
    }
}

/// Where the recovery window starts in so many bytes: it is the last of them.
pub open spec fn window_start(len: nat) -> int {
    if len > SEQ_RECOVERY_TAIL_BYTES {
        len - SEQ_RECOVERY_TAIL_BYTES
    } else {
        0
    }
}

/// Where a file of `len` bytes is to be read from for an append: from there on
/// everything that recovery looks at is read.
pub fn recovery_window_start(len: u64) -> (start: u64)
    ensures
        start == if len > SEQ_RECOVERY_REACH_BYTES {
            len - SEQ_RECOVERY_REACH_BYTES
        } else {
            0
        },
        len <= 131072 ==> start == 0,
        len > 131072 ==> len - start == 131072,
{
    len.saturating_sub(SEQ_RECOVERY_REACH_BYTES)
}

/// The number after `seq`, as far as there is one.
pub open spec fn next_seq(seq: u64) -> u64 {
    if seq < u64::MAX {
        (seq + 1) as u64
    } else {
        seq
    }
}

/// The sequence number that follows the last complete line.
pub open spec fn seq_after_line(line: Seq<u8>) -> Result<u64, OutboxError> {
    if !vstd::utf8::valid_utf8(line) {
        Err(OutboxError::TailNotUtf8)
    } else if text::trimmed(vstd::utf8::decode_utf8(line)).len() == 0 {
        Ok(1)
    } else {
        match envelope::parsed(vstd::utf8::decode_utf8(line)) {
            Some(e) => Ok(next_seq(e.seq)),
            None => Err(OutboxError::LastLineUnparseable),
        }
    }
}

/// What recovery finds at the end of a file: how many bytes stay, and the next
/// sequence number.
pub struct Recovery {
    pub keep: int,
    pub next: Result<u64, OutboxError>,
}

/// The last line of bytes that end with a line feed, without that line feed: as
/// much of it as the window holds.
pub open spec fn last_line(bytes: Seq<u8>) -> Seq<u8> {
    let body = bytes.skip(window_start(bytes.len())).drop_last();
    body.skip(last_newline(body) + 1)
}

/// Recovery on the bytes of a file from some offset on; `whole` holds when the
/// offset is 0.
///
/// The last line feed in the window ends the last complete line, which has the
/// number to continue from; what follows it is torn and goes. A file with no
/// line feed at all is one torn line. A window without a line feed in a longer
/// file is left alone.
pub open spec fn recovery(bytes: Seq<u8>, whole: bool) -> Recovery {
    let from = window_start(bytes.len());
    let end = last_newline(bytes.skip(from));
    if end >= 0 {
        let keep = from + end + 1;
        Recovery { keep, next: seq_after_line(last_line(bytes.take(keep))) }
    } else if whole && from == 0 {
        Recovery { keep: 0, next: Ok(1) }
    } else {
        Recovery { keep: bytes.len() as int, next: Err(OutboxError::NoCompleteLine) }
    }
}

pub proof fn lemma_last_newline(s: Seq<u8>)
    ensures
        -1 <= last_newline(s) < s.len(),
        last_newline(s) >= 0 ==> s[last_newline(s)] == 10,
        forall|i: int| last_newline(s) < i < s.len() ==> s[i] != 10,
    decreases s.len(),
{
    if s.len() > 0 && s.last() != 10 {
        lemma_last_newline(s.drop_last());
        assert forall|i: int| last_newline(s) < i < s.len() implies s[i] != 10 by {
            if i < s.len() - 1 {
                assert(s.drop_last()[i] == s[i]);
            }
        }
    }
}

/// The last line feed is the one after which there is none.
pub proof fn lemma_last_newline_is(s: Seq<u8>, at: int)
    requires
        -1 <= at < s.len(),
        at >= 0 ==> s[at] == 10,
        forall|i: int| at < i < s.len() ==> s[i] != 10,
    ensures
        last_newline(s) == at,
{
    lemma_last_newline(s);
}

pub proof fn lemma_keep_within(bytes: Seq<u8>, whole: bool)
    ensures
        0 <= recovery(bytes, whole).keep <= bytes.len(),
{
    lemma_last_newline(bytes.skip(window_start(bytes.len())));
}

/// The index of the last line feed of `bytes[from..to]`, if there is one.
pub(crate) fn find_last_newline(bytes: &Vec<u8>, from: usize, to: usize) -> (found: Option<usize>)
    requires
        from <= to <= bytes@.len(),
    ensures
        match found {
            Some(at) => from <= at < to && at - from == last_newline(
                bytes@.subrange(from as int, to as int),
            ),
            None => last_newline(bytes@.subrange(from as int, to as int)) == -1,
        },
{
    let ghost whole = bytes@.subrange(from as int, to as int);
    let mut i: usize = to;
    while i > from
        invariant
            from <= i <= to <= bytes@.len(),
            whole == bytes@.subrange(from as int, to as int),
            forall|j: int| i <= j < to ==> bytes@[j] != 10,
        decreases i,
    {
        i -= 1;
        if bytes[i] == 10 {
            proof {
                lemma_last_newline_is(whole, i - from);
            }
            return Some(i);
        }
    }
    proof {
        lemma_last_newline_is(whole, -1);
    }
    None
}

/// Recovers the sequence number to continue from: that of the last complete
/// line plus 1, or 1 for an empty file. A torn last line is cut off, whether
/// or not a number can be read.
///
/// Only the end of the file is looked at: a window for the last line feed, and
/// a window before that for the line, however long the torn line was.
pub fn recover_last_seq(file: &mut OutboxFile) -> (next: Result<u64, OutboxError>)
    requires
        old(file).wf(),
        old(file).covers_window(),
    ensures
        next == recovery(old(file)@, old(file).whole()).next,
        final(file)@ == old(file)@.take(recovery(old(file)@, old(file).offset == 0).keep),
        final(file).offset == old(file).offset,
        final(file).recovered_from(*old(file)),
        final(file).wf(),
        final(file).settles_as(*old(file)),
{
    proof {
        lemma_keep_within(file@, file.offset == 0);
    }
    let len: usize = file.bytes.len();
    let window: usize = SEQ_RECOVERY_TAIL_BYTES as usize;
    let from: usize = if len > window {
        len - window
    } else {
        0
    };
    let ghost before = file@;
    assert(before.take(len as int) =~= before);
    assert(before.subrange(from as int, len as int) =~= before.skip(from as int));
    match find_last_newline(&file.bytes, from, len) {
        Some(end) => {
            let reach: usize = if end + 1 > window {
                end + 1 - window
            } else {
                0
            };
            let ghost kept = before.take(end + 1);
            let ghost body = kept.skip(reach as int).drop_last();
            assert(before.subrange(reach as int, end as int) =~= body);
            let line_start: usize = match find_last_newline(&file.bytes, reach, end) {
                Some(at) => at + 1,
                None => reach,
            };
            assert(last_line(kept) =~= before.subrange(line_start as int, end as int));
            let line = text::utf8_text(
                vstd::slice::slice_subrange(file.bytes.as_slice(), line_start, end),
            );
            file.bytes.truncate(end + 1);
            if file.settled > end + 1 {
                file.settled = end + 1;
            }
            assert(file@.take(file.settled as int) =~= before.take(file.settled as int));
            match line {
                None => Err(OutboxError::TailNotUtf8),
                Some(line) => {
                    if text::trim(line.as_str()).as_str().is_empty() {
                        return Ok(1);
                    }
                    match envelope::decode_line(line.as_str()) {
                        Some(envelope) => Ok(envelope.seq.saturating_add(1)),
                        None => Err(OutboxError::LastLineUnparseable),
                    }
                },
            }
        },
        None => {
            if file.offset == 0 && from == 0 {
                file.bytes.truncate(0);
                file.settled = 0;
                assert(file@.take(0) =~= before.take(0));
                Ok(1)
            } else {
                Err(OutboxError::NoCompleteLine)
            }
        },
    }
}

/// Whether a text is a time in UTC with its `T` at index `at`: the date before it
/// and the time of day behind it, with or without a fraction of a second. The
/// year may have a sign and more than four digits.
pub open spec fn utc_time_at(s: Seq<char>, at: int) -> bool {
    &&& 10 <= at && at + 15 <= s.len()
    &&& s[at - 6] == '-' && s[at - 3] == '-' && s[at] == 'T'
    &&& s[at + 3] == ':' && s[at + 6] == ':'
    &&& at + 15 == s.len() || s[at + 9] == '.'
    &&& s.skip(s.len() - 6) == "+00:00"@
    &&& '0' <= s[0] <= '9' || s[0] == '+' || s[0] == '-'
    &&& forall|i: int|
        0 < i < s.len() - 6 && i != at - 6 && i != at - 3 && i != at && i != at + 3 && i != at + 6
            && i != at + 9 ==> '0' <= #[trigger] s[i] <= '9'
}

/// Whether a text is a time in UTC, such as `2026-01-31T08:30:00.25+00:00`.
pub open spec fn is_utc_time(s: Seq<char>) -> bool {
    exists|at: int| utc_time_at(s, at)
}

/// The current time, by `chrono::Utc::now` and `to_rfc3339`: date, `T`, time of
/// day and the offset `+00:00`. Which time it is depends on when the call is made.
#[verifier::external_body]
fn now_rfc3339() -> (time: String)
    ensures
        is_utc_time(time@),
{
    chrono::Utc::now().to_rfc3339()
}

/// The envelope for an event: its fields, the sequence number and two times.
pub open spec fn stamped(
    seq: u64,
    event: envelope::EventView,
    timestamp: Seq<char>,
    created_at: Seq<char>,
) -> envelope::EnvelopeView {
    envelope::EnvelopeView {
        schema_version: envelope::RUNTIME_EVENT_ENVELOPE_SCHEMA_VERSION,
        seq,
        event: event.event,
        kind: event.kind,
        thread_id: event.thread_id,
        turn_id: event.turn_id,
        item_id: event.item_id,
        timestamp,
        created_at: Some(created_at),
        payload: event.payload,
    }
}

/// Whether `e` is the envelope for `event` under the number `seq`, stamped with
/// whatever times in UTC.
pub open spec fn carries(e: envelope::EnvelopeView, seq: u64, event: envelope::EventView) -> bool {
    exists|timestamp: Seq<char>, created_at: Seq<char>|
        e == #[trigger] stamped(seq, event, timestamp, created_at) && is_utc_time(timestamp)
            && is_utc_time(created_at)
}

/// The envelope for an event, with the given times.
pub fn stamp_envelope(
    seq: u64,
    event: LifecycleEvent,
    timestamp: String,
    created_at: String,
) -> (envelope: RuntimeEventEnvelope)
    ensures
        envelope@ == stamped(seq, event@, timestamp@, created_at@),
        envelope.schema_version == 1,
        envelope.seq == seq,
        envelope.event == event.event,
        envelope.kind == event.kind,
        envelope.thread_id == event.thread_id,
        envelope.turn_id == event.turn_id,
        envelope.item_id == event.item_id,
        envelope.timestamp == timestamp,
        envelope.created_at == Some(created_at),
        envelope.payload == event.payload,
{
    RuntimeEventEnvelope {
        schema_version: envelope::RUNTIME_EVENT_ENVELOPE_SCHEMA_VERSION,
        seq,
        event: event.event,
        kind: event.kind,
        thread_id: event.thread_id,
        turn_id: event.turn_id,
        item_id: event.item_id,
        timestamp,
        created_at: Some(created_at),
        payload: event.payload,
    }
}

/// Recovers the next sequence number and builds the envelope for `event`,
/// stamped with the current time.
pub fn build_envelope(
    file: &mut OutboxFile,
    event: LifecycleEvent,
) -> (envelope: Result<RuntimeEventEnvelope, OutboxError>)
    requires
        old(file).wf(),
        old(file).covers_window(),
    ensures
        match recovery(old(file)@, old(file).whole()).next {
            Ok(seq) => envelope is Ok && carries(envelope->Ok_0@, seq, event@),
            Err(error) => envelope == Err::<RuntimeEventEnvelope, OutboxError>(error),
        },
        final(file).recovered_from(*old(file)),
        final(file).wf(),
        final(file).settles_as(*old(file)),
{
    let seq = match recover_last_seq(file) {
        Ok(seq) => seq,
        Err(error) => return Err(error),
    };
    let timestamp = now_rfc3339();
    let created_at = now_rfc3339();
    Ok(stamp_envelope(seq, event, timestamp, created_at))
}

/// The line of an envelope as it stands in the file: UTF-8 with a line feed.
pub open spec fn record(e: envelope::EnvelopeView) -> Seq<u8> {
    vstd::utf8::encode_utf8(envelope::envelope_line(e)).push(10)
}

/// The length of an envelope's line, line feed included, as far as it can be
/// expressed.
pub open spec fn record_bytes(e: envelope::EnvelopeView) -> u64 {
    if record(e).len() <= u64::MAX {
        record(e).len() as u64
    } else {
        u64::MAX
    }
}

/// Whether the line of an envelope is short enough to be appended.
pub open spec fn fits(e: envelope::EnvelopeView) -> bool {
    record(e).len() <= MAX_OUTBOX_LINE_BYTES
}

/// Whether the line of an envelope is one line, and is read as that envelope.
pub open spec fn readable(e: envelope::EnvelopeView) -> bool {
    &&& !envelope::envelope_line(e).contains('\n')
    &&& envelope::parsed(envelope::envelope_line(e)) == Some(e)
}

/// When the line of an envelope is read back as that envelope: wherever the JSON
/// parser reads it at all, and so wherever it nests little, and wherever its
/// payload was read from another line.
pub open spec fn read_back(e: envelope::EnvelopeView) -> bool {
    &&& json::json_object(envelope::envelope_line(e)) is Some ==> readable(e)
    &&& json::shallow(envelope::envelope_line(e)) ==> readable(e)
    &&& json::reads_at(e.payload, 1) ==> readable(e)
}

/// Whether `result` says what becomes of the line of `e`: it is appended, unless
/// it is too long.
pub open spec fn reports_line(e: envelope::EnvelopeView, result: Result<(), OutboxError>) -> bool {
    if fits(e) {
        result is Ok
    } else {
        result == Err::<(), OutboxError>(OutboxError::LineTooLong { bytes: record_bytes(e) })
    }
}

/// Whether appending `event` to the file `before` makes the envelope `e` and
/// leaves the file `after`: the envelope carries the event under the recovered
/// number, a torn line is cut off, and the envelope's line stands behind the
/// others unless it is too long.
pub open spec fn appends(
    before: Seq<u8>,
    whole: bool,
    event: envelope::EventView,
    e: envelope::EnvelopeView,
    after: Seq<u8>,
) -> bool {
    let found = recovery(before, whole);
    &&& found.next is Ok
    &&& carries(e, found.next->Ok_0, event)
    &&& read_back(e)
    &&& after == if fits(e) {
        before.take(found.keep) + record(e)
    } else {
        before.take(found.keep)
    }
}

/// Appends the line of `envelope`, unless it is too long.
pub fn write_envelope_line(
    file: &mut OutboxFile,
    envelope: &RuntimeEventEnvelope,
) -> (result: Result<(), OutboxError>)
    requires
        old(file).wf(),
    ensures
        reports_line(envelope@, result),
        final(file)@ == if fits(envelope@) {
            old(file)@ + record(envelope@)
        } else {
            old(file)@
        },
        read_back(envelope@),
        final(file).wf(),
        final(file).settles_as(*old(file)),
        final(file).settled == old(file).settled,
{
    let line = envelope::encode_line(envelope);
    let bytes = line.as_str().as_bytes();
    let total: u64 = (bytes.len() as u64).saturating_add(1);
    if total > MAX_OUTBOX_LINE_BYTES {
        return Err(OutboxError::LineTooLong { bytes: total });
    }
    file.bytes.extend_from_slice(bytes);
    file.bytes.push(10);
    assert(file@ =~= old(file)@ + record(envelope@));
    assert(file@.take(file.settled as int) =~= old(file)@.take(file.settled as int));
    Ok(())
}

/// Appends one event: recovers the next sequence number, builds the envelope
/// and appends its line. The caller holds the outbox's lock.
///
/// The envelope is returned even when its line is refused.
pub fn append_event_under_lock(
    file: &mut OutboxFile,
    event: LifecycleEvent,
) -> (result: Result<(RuntimeEventEnvelope, Result<(), OutboxError>), OutboxError>)
    requires
        old(file).wf(),
        old(file).covers_window(),
    ensures
        match recovery(old(file)@, old(file).whole()).next {
            Ok(_) => result is Ok && appends(
                old(file)@,
                old(file).whole(),
                event@,
                result->Ok_0.0@,
                final(file)@,
            ) && reports_line(result->Ok_0.0@, result->Ok_0.1),
            Err(error) => result == Err::<
                (RuntimeEventEnvelope, Result<(), OutboxError>),
                OutboxError,
            >(error) && final(file)@ == old(file)@.take(
                recovery(old(file)@, old(file).whole()).keep,
            ),
        },
        final(file).wf(),
        final(file).settles_as(*old(file)),
        final(file).settled == old(file).settled_within(
            recovery(old(file)@, old(file).whole()).keep,
        ),
{
    let envelope = match build_envelope(file, event) {
        Ok(envelope) => envelope,
        Err(error) => return Err(error),
    };
    proof {
        lemma_keep_within(old(file)@, old(file).whole());
    }
    let append_result = write_envelope_line(file, &envelope);
    Ok((envelope, append_result))
}

} // verus!
