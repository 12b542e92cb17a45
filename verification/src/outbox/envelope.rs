//! Lifecycle events, the envelopes that carry them, and the JSON line format
//! of an envelope.
use vstd::prelude::*;

use crate::json;
use crate::text;

verus! {

/// The schema version that every envelope states.
pub const RUNTIME_EVENT_ENVELOPE_SCHEMA_VERSION: u32 = 1;

/// One lifecycle event destined for the outbox.
///
/// `payload` must only contain bounded, redacted fields; apply `bounded_text`
/// to anything free-form before inserting it.
#[derive(Debug)]
pub struct LifecycleEvent {
    /// Snake-case event name, such as `"turn_start"`.
    pub event: String,
    /// Dotted event kind, such as `"turn.started"` or `"turn.failed"`.
    pub kind: String,
    /// Owning session or thread id. Empty when the producer has none.
    pub thread_id: String,
    /// Current turn id, when known.
    pub turn_id: Option<String>,
    /// Current item id, when known.
    pub item_id: Option<String>,
    /// Bounded, redacted event payload.
    pub payload: serde_json::Value,
}

/// What an event says: its texts, and the compact text of its payload.
pub struct EventView {
    pub event: Seq<char>,
    pub kind: Seq<char>,
    pub thread_id: Seq<char>,
    pub turn_id: Option<Seq<char>>,
    pub item_id: Option<Seq<char>>,
    pub payload: Seq<char>,
}

impl View for LifecycleEvent {
    type V = EventView;

    open spec fn view(&self) -> EventView {
        EventView {
            event: self.event@,
            kind: self.kind@,
            thread_id: self.thread_id@,
            turn_id: text::optional(self.turn_id),
            item_id: text::optional(self.item_id),
            payload: json::json_text(self.payload),
        }
    }
}

impl Clone for LifecycleEvent {
    fn clone(&self) -> (copy: Self)
        ensures
            copy@ == self@,
    {
        LifecycleEvent {
            event: self.event.clone(),
            kind: self.kind.clone(),
            thread_id: self.thread_id.clone(),
            turn_id: self.turn_id.clone(),
            item_id: self.item_id.clone(),
            payload: self.payload.clone(),
        }
    }
}

/// One line of the outbox: an event with its sequence number and times.
#[derive(Debug)]
pub struct RuntimeEventEnvelope {
    pub schema_version: u32,
    /// Unique and increasing within one outbox file.
    pub seq: u64,
    pub event: String,
    pub kind: String,
    pub thread_id: String,
    pub turn_id: Option<String>,
    pub item_id: Option<String>,
    pub timestamp: String,
    pub created_at: Option<String>,
    pub payload: serde_json::Value,
}

/// What an envelope says.
pub struct EnvelopeView {
    pub schema_version: u32,
    pub seq: u64,
    pub event: Seq<char>,
    pub kind: Seq<char>,
    pub thread_id: Seq<char>,
    pub turn_id: Option<Seq<char>>,
    pub item_id: Option<Seq<char>>,
    pub timestamp: Seq<char>,
    pub created_at: Option<Seq<char>>,
    pub payload: Seq<char>,
}

impl View for RuntimeEventEnvelope {
    type V = EnvelopeView;

    open spec fn view(&self) -> EnvelopeView {
        EnvelopeView {
            schema_version: self.schema_version,
            seq: self.seq,
            event: self.event@,
            kind: self.kind@,
            thread_id: self.thread_id@,
            turn_id: text::optional(self.turn_id),
            item_id: text::optional(self.item_id),
            timestamp: self.timestamp@,
            created_at: text::optional(self.created_at),
            payload: json::json_text(self.payload),
        }
    }
}

impl Clone for RuntimeEventEnvelope {
    fn clone(&self) -> (copy: Self)
        ensures
            copy@ == self@,
    {
        RuntimeEventEnvelope {
            schema_version: self.schema_version,
            seq: self.seq,
            event: self.event.clone(),
            kind: self.kind.clone(),
            thread_id: self.thread_id.clone(),
            turn_id: self.turn_id.clone(),
            item_id: self.item_id.clone(),
            timestamp: self.timestamp.clone(),
            created_at: self.created_at.clone(),
            payload: self.payload.clone(),
        }
    }
}

/// The JSON text of an optional string: its literal, or `null`.
pub open spec fn optional_literal(s: Option<Seq<char>>) -> Seq<char> {
    match s {
        Some(s) => json::json_quoted(s),
        None => "null"@,
    }
}

/// The members of the JSON object that stands for an envelope.
pub open spec fn envelope_members(e: EnvelopeView) -> Seq<(Seq<char>, Seq<char>)> {
    seq![
        ("schema_version"@, text::decimal(e.schema_version as nat)),
        ("seq"@, text::decimal(e.seq as nat)),
        ("event"@, json::json_quoted(e.event)),
        ("kind"@, json::json_quoted(e.kind)),
        ("thread_id"@, json::json_quoted(e.thread_id)),
        ("turn_id"@, optional_literal(e.turn_id)),
        ("item_id"@, optional_literal(e.item_id)),
        ("timestamp"@, json::json_quoted(e.timestamp)),
        ("created_at"@, optional_literal(e.created_at)),
        ("payload"@, e.payload),
    ]
}

/// The line of an envelope, without its line feed.
pub open spec fn envelope_line(e: EnvelopeView) -> Seq<char> {
    json::object_text(envelope_members(e))
}

/// The string that a member holds; `None` where the member is missing or holds
/// anything else.
pub open spec fn string_of(member: Option<Seq<char>>) -> Option<Seq<char>> {
    match member {
        Some(t) => if exists|s: Seq<char>| t == json::json_quoted(s) {
            Some(choose|s: Seq<char>| t == json::json_quoted(s))
        } else {
            None
        },
        None => None,
    }
}

/// The number that a member holds; `None` where the member is missing or holds
/// anything else.
pub open spec fn number_of(member: Option<Seq<char>>) -> Option<u64> {
    match member {
        Some(t) => if exists|n: u64| t == #[trigger] text::decimal(n as nat) {
            Some(choose|n: u64| t == #[trigger] text::decimal(n as nat))
        } else {
            None
        },
        None => None,
    }
}

/// The optional string that a member holds: absent for a missing member and
/// for `null`. The outer `None` stands for a member of another type.
pub open spec fn optional_string_of(member: Option<Seq<char>>) -> Option<Option<Seq<char>>> {
    match member {
        Some(t) => if t == "null"@ {
            Some(None)
        } else {
            match string_of(member) {
                Some(s) => Some(Some(s)),
                None => None,
            }
        },
        None => Some(None),
    }
}

/// The envelope that an object's members stand for. The version, the sequence
/// number, the event, the kind, the thread, the time and the payload have to be
/// there; members with other keys are ignored.
pub open spec fn decoded(members: Seq<(Seq<char>, Seq<char>)>) -> Option<EnvelopeView> {
    let version = number_of(json::lookup(members, "schema_version"@));
    let seq = number_of(json::lookup(members, "seq"@));
    let event = string_of(json::lookup(members, "event"@));
    let kind = string_of(json::lookup(members, "kind"@));
    let thread_id = string_of(json::lookup(members, "thread_id"@));
    let turn_id = optional_string_of(json::lookup(members, "turn_id"@));
    let item_id = optional_string_of(json::lookup(members, "item_id"@));
    let timestamp = string_of(json::lookup(members, "timestamp"@));
    let created_at = optional_string_of(json::lookup(members, "created_at"@));
    let payload = json::lookup(members, "payload"@);
    if version is Some && version->0 <= u32::MAX && seq is Some && event is Some && kind is Some
        && thread_id is Some && turn_id is Some && item_id is Some && timestamp is Some
        && created_at is Some && payload is Some {
        Some(
            EnvelopeView {
                schema_version: version->0 as u32,
                seq: seq->0,
                event: event->0,
                kind: kind->0,
                thread_id: thread_id->0,
                turn_id: turn_id->0,
                item_id: item_id->0,
                timestamp: timestamp->0,
                created_at: created_at->0,
                payload: payload->0,
            },
        )
    } else {
        None
    }
}

/// The envelope that a line stands for, if any.
pub open spec fn parsed(line: Seq<char>) -> Option<EnvelopeView> {
    match json::json_object(line) {
        Some(members) => decoded(members),
        None => None,
    }
}

/// Reads a member that has to be a string.
fn read_string(
    object: &serde_json::Map<String, serde_json::Value>,
    key: &str,
) -> (s: Option<String>)
    ensures
        text::optional(s) == string_of(json::lookup(json::json_members(*object), key@)),
{
    match json::member(object, key) {
        Some(value) => json::as_text(&value),
        None => None,
    }
}

/// Reads a member that has to be a number.
fn read_number(object: &serde_json::Map<String, serde_json::Value>, key: &str) -> (n: Option<u64>)
    ensures
        n == number_of(json::lookup(json::json_members(*object), key@)),
{
    match json::member(object, key) {
        Some(value) => json::as_number(&value),
        None => None,
    }
}

/// Reads a member that may be a string, `null` or missing.
fn read_optional_string(
    object: &serde_json::Map<String, serde_json::Value>,
    key: &str,
) -> (s: Option<Option<String>>)
    ensures
        match s {
            Some(s) => optional_string_of(json::lookup(json::json_members(*object), key@)) == Some(
                text::optional(s),
            ),
            None => optional_string_of(json::lookup(json::json_members(*object), key@)) is None,
        },
{
    match json::member(object, key) {
        Some(value) => if json::is_null(&value) {
            Some(None)
        } else {
            match json::as_text(&value) {
                Some(s) => Some(Some(s)),
                None => None,
            }
        },
        None => Some(None),
    }
}

/// Reads one line of the outbox; `None` where it is not the line of an
/// envelope. A payload that was read can be read again inside another envelope.
pub fn decode_line(line: &str) -> (envelope: Option<RuntimeEventEnvelope>)
    ensures
        match envelope {
            Some(e) => parsed(line@) == Some(e@) && json::reads_at(e@.payload, 1),
            None => parsed(line@) is None,
        },
{
    let object = json::parse_object(line)?;
    let version = read_number(&object, "schema_version")?;
    if version > 0xffff_ffff {
        return None;
    }
    let seq = read_number(&object, "seq")?;
    let event = read_string(&object, "event")?;
    let kind = read_string(&object, "kind")?;
    let thread_id = read_string(&object, "thread_id")?;
    let turn_id = read_optional_string(&object, "turn_id")?;
    let item_id = read_optional_string(&object, "item_id")?;
    let timestamp = read_string(&object, "timestamp")?;
    let created_at = read_optional_string(&object, "created_at")?;
    let payload = json::member(&object, "payload")?;
    proof {
        lemma_lookup_reads(json::json_members(object), "payload"@);
    }
    Some(
        RuntimeEventEnvelope {
            schema_version: version as u32,
            seq,
            event,
            kind,
            thread_id,
            turn_id,
            item_id,
            timestamp,
            created_at,
            payload,
        },
    )
}

/// The keys of an envelope's members are different from each other.
proof fn lemma_keys_distinct()
    ensures
        forall|e: EnvelopeView, i: int, j: int| #![trigger envelope_members(
            e,
        )[i], envelope_members(e)[j]]
            0 <= i < j < 10 ==> envelope_members(e)[i].0 != envelope_members(e)[j].0,
{
    reveal_strlit("schema_version");
    reveal_strlit("seq");
    reveal_strlit("event");
    reveal_strlit("kind");
    reveal_strlit("thread_id");
    reveal_strlit("turn_id");
    reveal_strlit("item_id");
    reveal_strlit("timestamp");
    reveal_strlit("created_at");
    reveal_strlit("payload");
    assert("thread_id"@[1] != "timestamp"@[1]);
    assert("turn_id"@[0] != "item_id"@[0]);
    assert("turn_id"@[0] != "payload"@[0]);
    assert("item_id"@[0] != "payload"@[0]);
    assert forall|e: EnvelopeView, i: int, j: int|
        #![trigger envelope_members(e)[i], envelope_members(e)[j]]
        0 <= i < j < 10 implies envelope_members(e)[i].0 != envelope_members(e)[j].0 by {
        let a = envelope_members(e)[i].0;
        let b = envelope_members(e)[j].0;
        if a.len() == b.len() {
            assert(a[0] != b[0] || a[1] != b[1]);
        }
    }
}

proof fn lemma_lookup_reads(members: Seq<(Seq<char>, Seq<char>)>, key: Seq<char>)
    requires
        json::members_read_at(members, 0),
        json::lookup(members, key) is Some,
    ensures
        json::reads_at(json::lookup(members, key)->0, 1),
    decreases members.len(),
{
    assert(json::reads_at(members[members.len() - 1].1, 1));
    if members.last().0 != key {
        assert forall|i: int| 0 <= i < members.len() - 1 implies #[trigger] json::reads_at(
            members.drop_last()[i].1,
            1,
        ) by {
            assert(json::reads_at(members[i].1, 1));
        }
        lemma_lookup_reads(members.drop_last(), key);
    }
}

proof fn lemma_lookup_unique(members: Seq<(Seq<char>, Seq<char>)>, at: int)
    requires
        0 <= at < members.len(),
        forall|i: int| at < i < members.len() ==> (#[trigger] members[i]).0 != members[at].0,
    ensures
        json::lookup(members, members[at].0) == Some(members[at].1),
    decreases members.len(),
{
    if at < members.len() - 1 {
        assert(members[members.len() - 1].0 != members[at].0);
        lemma_lookup_unique(members.drop_last(), at);
    }
}

/// Appends the next member of an envelope's object.
fn add_member(
    object: &mut serde_json::Map<String, serde_json::Value>,
    key: &str,
    value: serde_json::Value,
    Ghost(e): Ghost<EnvelopeView>,
    Ghost(n): Ghost<int>,
)
    requires
        0 <= n < 10,
        json::json_members(*old(object)) == envelope_members(e).take(n),
        envelope_members(e)[n] == (key@, json::json_text(value)),
    ensures
        json::json_members(*final(object)) == envelope_members(e).take(n + 1),
{
    proof {
        let before = envelope_members(e).take(n);
        lemma_keys_distinct();
        assert forall|i: int| 0 <= i < before.len() implies (#[trigger] before[i]).0 != key@ by {
            assert(before[i] == envelope_members(e)[i]);
            assert(envelope_members(e)[n].0 == key@);
        }
        assert(before.push((key@, json::json_text(value))) =~= envelope_members(e).take(n + 1));
    }
    json::insert(object, key, value);
}

/// The JSON value of an optional string.
fn optional_value(s: &Option<String>) -> (value: serde_json::Value)
    ensures
        json::json_text(value) == optional_literal(text::optional(*s)),
        optional_string_of(Some(json::json_text(value))) == Some(text::optional(*s)),
        json::reads_at(json::json_text(value), 1),
{
    match s {
        Some(s) => {
            let value = json::string_value(s.as_str());
            proof {
                reveal_strlit("null");
                assert(json::json_text(value)[0] != "null"@[0]);
            }
            value
        },
        None => json::null_value(),
    }
}

/// The JSON value of a string.
fn literal_value(s: &String) -> (value: serde_json::Value)
    ensures
        json::json_text(value) == json::json_quoted(s@),
        string_of(Some(json::json_text(value))) == Some(s@),
        json::reads_at(json::json_text(value), 1),
{
    json::string_value(s.as_str())
}

/// The JSON value of a number.
fn decimal_value(n: u64) -> (value: serde_json::Value)
    ensures
        json::json_text(value) == text::decimal(n as nat),
        number_of(Some(json::json_text(value))) == Some(n),
        json::reads_at(json::json_text(value), 1),
{
    let value = json::number_value(n);
    proof {
        let t = json::json_text(value);
        let m = choose|m: u64| t == #[trigger] text::decimal(m as nat);
        assert(t == text::decimal(n as nat));
        text::lemma_decimal_injective(m as nat, n as nat);
    }
    value
}

/// Members that stand for an envelope are read as that envelope.
proof fn lemma_decoded_members(e: EnvelopeView)
    requires
        number_of(Some(text::decimal(e.schema_version as nat))) == Some(e.schema_version as u64),
        number_of(Some(text::decimal(e.seq as nat))) == Some(e.seq),
        string_of(Some(json::json_quoted(e.event))) == Some(e.event),
        string_of(Some(json::json_quoted(e.kind))) == Some(e.kind),
        string_of(Some(json::json_quoted(e.thread_id))) == Some(e.thread_id),
        optional_string_of(Some(optional_literal(e.turn_id))) == Some(e.turn_id),
        optional_string_of(Some(optional_literal(e.item_id))) == Some(e.item_id),
        string_of(Some(json::json_quoted(e.timestamp))) == Some(e.timestamp),
        optional_string_of(Some(optional_literal(e.created_at))) == Some(e.created_at),
    ensures
        decoded(envelope_members(e)) == Some(e),
{
    let members = envelope_members(e);
    lemma_keys_distinct();
    assert forall|at: int| 0 <= at < 10 implies json::lookup(members, (#[trigger] members[at]).0)
        == Some(members[at].1) by {
        lemma_lookup_unique(members, at);
    }
    assert(members[0].0 == "schema_version"@);
    assert(members[1].0 == "seq"@);
    assert(members[2].0 == "event"@);
    assert(members[3].0 == "kind"@);
    assert(members[4].0 == "thread_id"@);
    assert(members[5].0 == "turn_id"@);
    assert(members[6].0 == "item_id"@);
    assert(members[7].0 == "timestamp"@);
    assert(members[8].0 == "created_at"@);
    assert(members[9].0 == "payload"@);
}

/// The JSON value of an envelope. Its text is the envelope's line, which is read
/// back as the same envelope wherever it is read at all: always, where it is
/// shallow or its payload was read from another envelope.
pub fn envelope_value(envelope: &RuntimeEventEnvelope) -> (value: serde_json::Value)
    ensures
        json::json_text(value) == envelope_line(envelope@),
        json::json_object(envelope_line(envelope@)) is Some ==> parsed(envelope_line(envelope@))
            == Some(envelope@),
        json::shallow(envelope_line(envelope@)) ==> json::json_object(
            envelope_line(envelope@),
        ) is Some,
        json::reads_at(envelope@.payload, 1) ==> json::json_object(
            envelope_line(envelope@),
        ) is Some,
{
    let ghost e = envelope@;
    let version = decimal_value(envelope.schema_version as u64);
    let seq = decimal_value(envelope.seq);
    let event = literal_value(&envelope.event);
    let kind = literal_value(&envelope.kind);
    let thread_id = literal_value(&envelope.thread_id);
    let turn_id = optional_value(&envelope.turn_id);
    let item_id = optional_value(&envelope.item_id);
    let timestamp = literal_value(&envelope.timestamp);
    let created_at = optional_value(&envelope.created_at);
    let payload = envelope.payload.clone();
    proof {
        lemma_decoded_members(e);
    }
    let mut object = json::new_object();
    assert(envelope_members(e).take(0) =~= Seq::empty());
    add_member(&mut object, "schema_version", version, Ghost(e), Ghost(0));
    add_member(&mut object, "seq", seq, Ghost(e), Ghost(1));
    add_member(&mut object, "event", event, Ghost(e), Ghost(2));
    add_member(&mut object, "kind", kind, Ghost(e), Ghost(3));
    add_member(&mut object, "thread_id", thread_id, Ghost(e), Ghost(4));
    add_member(&mut object, "turn_id", turn_id, Ghost(e), Ghost(5));
    add_member(&mut object, "item_id", item_id, Ghost(e), Ghost(6));
    add_member(&mut object, "timestamp", timestamp, Ghost(e), Ghost(7));
    add_member(&mut object, "created_at", created_at, Ghost(e), Ghost(8));
    add_member(&mut object, "payload", payload, Ghost(e), Ghost(9));
    assert(envelope_members(e).take(10) =~= envelope_members(e));
    proof {
        let members = envelope_members(e);
        if json::reads_at(e.payload, 1) {
            assert forall|i: int| 0 <= i < members.len() implies #[trigger] json::reads_at(
                members[i].1,
                1,
            ) by {}
            assert(json::members_read_at(members, 0));
        }
        assert(json::wrapped(envelope_line(e), 0) == envelope_line(e));
        assert(json::reads_at(envelope_line(e), 0) == (json::json_object(
            envelope_line(e),
        ) is Some));
    }
    json::object_value(object)
}

/// The line of an envelope, without its line feed.
pub fn encode_line(envelope: &RuntimeEventEnvelope) -> (line: String)
    ensures
        line@ == envelope_line(envelope@),
        !line@.contains('\n'),
        json::json_object(line@) is Some ==> parsed(line@) == Some(envelope@),
        json::shallow(line@) ==> json::json_object(line@) is Some,
        json::reads_at(envelope@.payload, 1) ==> json::json_object(line@) is Some,
{
    let value = envelope_value(envelope);
    json::compact_text(&value)
}

/// The members of the webhook body for an envelope.
pub open spec fn webhook_members(e: EnvelopeView) -> Seq<(Seq<char>, Seq<char>)> {
    seq![("at"@, json::json_quoted(e.timestamp)), ("event"@, envelope_line(e))]
}

/// The body that is posted to a webhook for an envelope: when it happened and
/// the envelope itself.
pub fn webhook_payload(envelope: &RuntimeEventEnvelope) -> (payload: serde_json::Value)
    ensures
        json::json_text(payload) == json::object_text(webhook_members(envelope@)),
{
    let at = json::string_value(envelope.timestamp.as_str());
    let event = envelope_value(envelope);
    let mut object = json::new_object();
    json::insert(&mut object, "at", at);
    json::insert(&mut object, "event", event);
    proof {
        reveal_strlit("at");
        reveal_strlit("event");
        let first = seq![("at"@, json::json_quoted(envelope@.timestamp))];
        assert("at"@.len() != "event"@.len());
        assert(first[0].0 == "at"@);
        assert(json::json_members(object) =~= webhook_members(envelope@));
    }
    json::object_value(object)
}

} // verus!
