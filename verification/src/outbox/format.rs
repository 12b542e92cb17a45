//! The line format of an envelope, and what it says: its laws.
use vstd::prelude::*;

use crate::json;
use crate::outbox::append;
use crate::outbox::envelope;
use crate::outbox::envelope::{EnvelopeView, EventView, LifecycleEvent, RuntimeEventEnvelope};
use crate::outbox::error::OutboxError;
use crate::outbox::reconcile;
use crate::text;

verus! {

/// The text of one member: its key, a colon and its value.
pub open spec fn member(key: Seq<char>, value: Seq<char>) -> Seq<char> {
    json::json_quoted(key) + seq![':'] + value
}

/// The value of an optional text: its literal, or `null`.
pub open spec fn or_null(s: Option<Seq<char>>) -> Seq<char> {
    if s is Some {
        json::json_quoted(s->0)
    } else {
        "null"@
    }
}

/// The line of an envelope is one object with ten members in a fixed order.
pub proof fn law_line_lists_the_fields_in_order(e: EnvelopeView)
    ensures
        envelope::envelope_line(e) == seq!['{'] + text::joined(
            seq![
                member("schema_version"@, text::decimal(e.schema_version as nat)),
                member("seq"@, text::decimal(e.seq as nat)),
                member("event"@, json::json_quoted(e.event)),
                member("kind"@, json::json_quoted(e.kind)),
                member("thread_id"@, json::json_quoted(e.thread_id)),
                member("turn_id"@, or_null(e.turn_id)),
                member("item_id"@, or_null(e.item_id)),
                member("timestamp"@, json::json_quoted(e.timestamp)),
                member("created_at"@, or_null(e.created_at)),
                member("payload"@, e.payload),
            ],
            seq![','],
        ) + seq!['}'],
{
    let texts = envelope::envelope_members(e).map_values(
        |m: (Seq<char>, Seq<char>)| json::member_text(m),
    );
    assert(texts =~= seq![
        member("schema_version"@, text::decimal(e.schema_version as nat)),
        member("seq"@, text::decimal(e.seq as nat)),
        member("event"@, json::json_quoted(e.event)),
        member("kind"@, json::json_quoted(e.kind)),
        member("thread_id"@, json::json_quoted(e.thread_id)),
        member("turn_id"@, or_null(e.turn_id)),
        member("item_id"@, or_null(e.item_id)),
        member("timestamp"@, json::json_quoted(e.timestamp)),
        member("created_at"@, or_null(e.created_at)),
        member("payload"@, e.payload),
    ]);
}

/// Whether an optional text is what a member says: its literal, or nothing for
/// `null` and for a missing member.
pub open spec fn told_by(s: Option<Seq<char>>, found: Option<Seq<char>>) -> bool {
    if s is Some {
        found == Some(json::json_quoted(s->0))
    } else {
        found is None || found == Some("null"@)
    }
}

/// Whether an envelope says what the members of an object say, key by key.
pub open spec fn told_by_members(e: EnvelopeView, members: Seq<(Seq<char>, Seq<char>)>) -> bool {
    &&& json::lookup(members, "schema_version"@) == Some(text::decimal(e.schema_version as nat))
    &&& json::lookup(members, "seq"@) == Some(text::decimal(e.seq as nat))
    &&& json::lookup(members, "event"@) == Some(json::json_quoted(e.event))
    &&& json::lookup(members, "kind"@) == Some(json::json_quoted(e.kind))
    &&& json::lookup(members, "thread_id"@) == Some(json::json_quoted(e.thread_id))
    &&& told_by(e.turn_id, json::lookup(members, "turn_id"@))
    &&& told_by(e.item_id, json::lookup(members, "item_id"@))
    &&& json::lookup(members, "timestamp"@) == Some(json::json_quoted(e.timestamp))
    &&& told_by(e.created_at, json::lookup(members, "created_at"@))
    &&& json::lookup(members, "payload"@) == Some(e.payload)
}

/// A line is read as an envelope exactly where it is an object whose members say
/// some envelope, and then the envelope read is one that they say.
pub proof fn law_lines_are_read_by_their_members(line: Seq<char>, e: EnvelopeView)
    ensures
        envelope::parsed(line) == Some(e) ==> json::json_object(line) is Some && told_by_members(
            e,
            json::json_object(line)->0,
        ),
        json::json_object(line) is Some && told_by_members(e, json::json_object(line)->0) ==> {
            let read = envelope::parsed(line);
            &&& read is Some
            &&& read->0.schema_version == e.schema_version
            &&& read->0.seq == e.seq
            &&& read->0.payload == e.payload
            &&& json::json_quoted(read->0.event) == json::json_quoted(e.event)
            &&& json::json_quoted(read->0.thread_id) == json::json_quoted(e.thread_id)
        },
        json::json_object(line) is None ==> envelope::parsed(line) is None,
{
    if json::json_object(line) is Some {
        let members = json::json_object(line)->0;
        if told_by_members(e, members) {
            let version = text::decimal(e.schema_version as nat);
            let seq = text::decimal(e.seq as nat);
            assert(version == text::decimal((e.schema_version as u64) as nat));
            let v = choose|n: u64| version == #[trigger] text::decimal(n as nat);
            let n = choose|n: u64| seq == #[trigger] text::decimal(n as nat);
            text::lemma_decimal_injective(v as nat, e.schema_version as nat);
            text::lemma_decimal_injective(n as nat, e.seq as nat);
        }
    }
}

/// A line of a file holds what its text says: white space around the text does
/// not matter, a blank line holds nothing, and neither do bytes that are no text.
pub proof fn law_lines_hold_what_their_text_says(
    line: Seq<u8>,
    before: Seq<char>,
    inner: Seq<char>,
    after: Seq<char>,
)
    requires
        forall|i: int| 0 <= i < before.len() ==> text::is_white(#[trigger] before[i]),
        forall|i: int| 0 <= i < after.len() ==> text::is_white(#[trigger] after[i]),
        inner.len() > 0 ==> !text::is_white(inner[0]) && !text::is_white(inner.last()),
    ensures
        !vstd::utf8::valid_utf8(line) ==> reconcile::line_envelope(line) is None,
        vstd::utf8::valid_utf8(line) && vstd::utf8::decode_utf8(line) == before + inner + after
            ==> reconcile::line_envelope(line) == if inner.len() == 0 {
            None
        } else {
            envelope::parsed(inner)
        },
{
    text::law_trimming_gives_the_inner_text(before, inner, after);
}

/// An envelope that carries an event says what the event says, under the number
/// given and the current version, with two times in UTC.
pub proof fn law_envelopes_carry_their_events(e: EnvelopeView, seq: u64, event: EventView)
    requires
        append::carries(e, seq, event),
    ensures
        e.schema_version == 1,
        e.seq == seq,
        e.event == event.event,
        e.kind == event.kind,
        e.thread_id == event.thread_id,
        e.turn_id == event.turn_id,
        e.item_id == event.item_id,
        e.payload == event.payload,
        append::is_utc_time(e.timestamp),
        e.created_at is Some,
        append::is_utc_time(e.created_at->0),
{
}

/// Whether a text has a `T` at an index, the separators of a date before it and
/// those of a time of day behind it, and digits between them.
pub open spec fn dated_at(s: Seq<char>, at: int) -> bool {
    &&& 10 <= at < s.len() - 14
    &&& s[at - 6] == '-' && s[at - 3] == '-' && s[at] == 'T'
    &&& s[at + 3] == ':' && s[at + 6] == ':'
    &&& '0' <= s[at - 5] <= '9' && '0' <= s[at - 4] <= '9'
    &&& '0' <= s[at - 2] <= '9' && '0' <= s[at - 1] <= '9'
    &&& '0' <= s[at + 1] <= '9' && '0' <= s[at + 2] <= '9'
    &&& '0' <= s[at + 4] <= '9' && '0' <= s[at + 5] <= '9'
    &&& '0' <= s[at + 7] <= '9' && '0' <= s[at + 8] <= '9'
}

/// A time in UTC ends with the offset `+00:00`, has a `T` between a date and a
/// time of day, and no other character than digits and their separators.
pub proof fn law_times_have_the_shape_of_rfc_3339(s: Seq<char>)
    requires
        append::is_utc_time(s),
    ensures
        s.len() >= 25,
        s.take(s.len() - 6) + "+00:00"@ == s,
        exists|at: int| #[trigger] dated_at(s, at),
{
    let at = choose|at: int| append::utc_time_at(s, at);
    assert(append::utc_time_at(s, at));
    assert(s.take(s.len() - 6) + s.skip(s.len() - 6) =~= s);
    assert(dated_at(s, at));
}

/// The views of events and envelopes show each of their fields.
pub proof fn law_views_show_every_field(event: LifecycleEvent, e: RuntimeEventEnvelope)
    ensures
        event@.event == event.event@,
        event@.kind == event.kind@,
        event@.thread_id == event.thread_id@,
        event@.turn_id is Some <==> event.turn_id is Some,
        event.turn_id is Some ==> event@.turn_id->0 == event.turn_id->0@,
        event@.item_id is Some <==> event.item_id is Some,
        event.item_id is Some ==> event@.item_id->0 == event.item_id->0@,
        event@.payload == json::json_text(event.payload),
        e@.schema_version == e.schema_version,
        e@.seq == e.seq,
        e@.event == e.event@,
        e@.kind == e.kind@,
        e@.thread_id == e.thread_id@,
        e@.turn_id is Some <==> e.turn_id is Some,
        e.turn_id is Some ==> e@.turn_id->0 == e.turn_id->0@,
        e@.item_id is Some <==> e.item_id is Some,
        e.item_id is Some ==> e@.item_id->0 == e.item_id->0@,
        e@.timestamp == e.timestamp@,
        e@.created_at is Some <==> e.created_at is Some,
        e.created_at is Some ==> e@.created_at->0 == e.created_at->0@,
        e@.payload == json::json_text(e.payload),
{
}

/// A line is appended exactly where it has at most 61440 bytes with its line
/// feed, and a longer one is refused with its length.
pub proof fn law_only_long_lines_are_refused(e: EnvelopeView, result: Result<(), OutboxError>)
    requires
        append::reports_line(e, result),
    ensures
        ({
            let line = vstd::utf8::encode_utf8(envelope::envelope_line(e));
            &&& append::record(e) == line + seq![10u8]
            &&& append::fits(e) <==> line.len() + 1 <= 61440
            &&& result is Ok <==> line.len() + 1 <= 61440
            &&& result is Err && line.len() + 1 <= u64::MAX ==> result == Err::<(), OutboxError>(
                OutboxError::LineTooLong { bytes: (line.len() + 1) as u64 },
            )
        }),
{
    let line = vstd::utf8::encode_utf8(envelope::envelope_line(e));
    assert(append::record(e) =~= line + seq![10u8]);
}

/// What is written can be read: the line of an envelope that was written is one
/// line, and wherever it holds fewer than 128 opening brackets, or the parser reads
/// it at all, it is read as that envelope.
pub proof fn law_written_lines_are_read_back(e: EnvelopeView)
    requires
        append::read_back(e),
    ensures
        ({
            let line = envelope::envelope_line(e);
            let brackets = line.filter(|c: char| c == '{' || c == '[');
            (json::json_object(line) is Some || brackets.len() < 128) ==> envelope::parsed(line)
                == Some(e) && !line.contains('\n')
        }),
{
}

/// Stamping keeps what the event says, and adds the version, the number and the two
/// times, each in its place.
pub proof fn law_stamping_keeps_the_event(
    seq: u64,
    event: EventView,
    timestamp: Seq<char>,
    created_at: Seq<char>,
)
    ensures
        ({
            let e = append::stamped(seq, event, timestamp, created_at);
            &&& e.timestamp == timestamp
            &&& e.created_at == Some(created_at)
            &&& e.schema_version == 1
            &&& e.seq == seq
            &&& e.event == event.event && e.kind == event.kind
            &&& e.thread_id == event.thread_id
            &&& e.turn_id == event.turn_id && e.item_id == event.item_id
            &&& e.payload == event.payload
        }),
{
}

} // verus!
