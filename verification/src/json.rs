//! The JSON layer: what the library takes on trust from `serde_json`, and the
//! text of objects in terms of their members.
//!
//! A value is modelled by its compact text, an object by its members: the key
//! and the compact text of each member, in order.
use vstd::prelude::*;

use crate::text;

verus! {

/// A JSON value; opaque, modelled by `json_text`.
#[verifier::external_type_specification]
#[verifier::external_body]
pub struct ExValue(serde_json::Value);

/// A JSON object under construction; opaque, modelled by `json_members`.
#[verifier::external_type_specification]
#[verifier::external_body]
#[verifier::reject_recursive_types(K)]
#[verifier::reject_recursive_types(V)]
pub struct ExMap<K, V>(serde_json::Map<K, V>);

/// The compact text of a value, as its `Display` writes it.
pub uninterp spec fn json_text(value: serde_json::Value) -> Seq<char>;

/// The members that an object holds, in order: key and compact text.
pub uninterp spec fn json_members(
    object: serde_json::Map<String, serde_json::Value>,
) -> Seq<(Seq<char>, Seq<char>)>;

/// The members of the object that `serde_json::from_str` reads from a text,
/// or `None` where it reads none.
pub uninterp spec fn json_object(text: Seq<char>) -> Option<Seq<(Seq<char>, Seq<char>)>>;

/// The JSON string literal for a text.
pub uninterp spec fn json_quoted(text: Seq<char>) -> Seq<char>;

/// The compact text of what `Value::get` finds under a key, in the value with
/// the compact text `value`.
pub uninterp spec fn json_entry(value: Seq<char>, key: Seq<char>) -> Option<Seq<char>>;

/// The text stored under `key`, or `None`.
pub open spec fn lookup(members: Seq<(Seq<char>, Seq<char>)>, key: Seq<char>) -> Option<Seq<char>>
    decreases members.len(),
{
    if members.len() == 0 {
        None
    } else if members.last().0 == key {
        Some(members.last().1)
    } else {
        lookup(members.drop_last(), key)
    }
}

/// `members` with `value` stored under `key`: in the place of the member that
/// has this key, else behind the others.
pub open spec fn put(
    members: Seq<(Seq<char>, Seq<char>)>,
    key: Seq<char>,
    value: Seq<char>,
) -> Seq<(Seq<char>, Seq<char>)>
{
    if exists|i: int| 0 <= i < members.len() && (#[trigger] members[i]).0 == key {
        let at = choose|i: int| 0 <= i < members.len() && (#[trigger] members[i]).0 == key;
        members.update(at, (key, value))
    } else {
        members.push((key, value))
    }
}

/// The compact text of one member.
pub open spec fn member_text(member: (Seq<char>, Seq<char>)) -> Seq<char> {
    json_quoted(member.0) + seq![':'] + member.1
}

/// The compact text of the object with these members.
pub open spec fn object_text(members: Seq<(Seq<char>, Seq<char>)>) -> Seq<char> {
    seq!['{'] + text::joined(
        members.map_values(|m: (Seq<char>, Seq<char>)| member_text(m)),
        seq![','],
    ) + seq!['}']
}

/// Text with so few opening brackets that nothing in it nests deeper than a
/// JSON parser with a recursion limit of 128 goes.
pub open spec fn shallow(s: Seq<char>) -> bool {
    s.filter(|c: char| c == '{' || c == '[').len() < 128
}

/// A text inside so many objects, one in the other: it is the only member of the
/// innermost, and each of the others has the next one as its only member.
pub open spec fn wrapped(t: Seq<char>, levels: nat) -> Seq<char>
    decreases levels,
{
    if levels == 0 {
        t
    } else {
        object_text(seq![(""@, wrapped(t, (levels - 1) as nat))])
    }
}

/// Whether the compact text of a value is read where it stands so many objects
/// deep: the deeper it stands, the less it may nest itself.
pub open spec fn reads_at(t: Seq<char>, levels: nat) -> bool {
    json_object(wrapped(t, levels)) is Some
}

/// Whether the compact text of an object with these members is read where it
/// stands so many objects deep, as far as its members say: each of them is read
/// one object deeper.
pub open spec fn members_read_at(members: Seq<(Seq<char>, Seq<char>)>, levels: nat) -> bool {
    &&& levels < 127
    &&& forall|i: int|
        0 <= i < members.len() ==> #[trigger] reads_at(members[i].1, (levels + 1) as nat)
}

/// The compact text of an optional value.
pub open spec fn optional_text(value: Option<serde_json::Value>) -> Option<Seq<char>> {
    match value {
        Some(v) => Some(json_text(v)),
        None => None,
    }
}

/// `Value::Null`, whose compact text is `null`. It does not nest: inside objects
/// it is read at every depth below the recursion limit.
#[verifier::external_body]
pub(crate) fn null_value() -> (value: serde_json::Value)
    ensures
        json_text(value) == "null"@,
        forall|levels: nat| 1 <= levels < 128 ==> #[trigger] reads_at(json_text(value), levels),
{
    serde_json::Value::Null
}

/// `Value::from` on a `bool`: the compact text is `true` or `false`. It does not
/// nest: inside objects it is read at every depth below the recursion limit.
#[verifier::external_body]
pub(crate) fn bool_value(b: bool) -> (value: serde_json::Value)
    ensures
        json_text(value) == if b { "true"@ } else { "false"@ },
        forall|levels: nat| 1 <= levels < 128 ==> #[trigger] reads_at(json_text(value), levels),
{
    serde_json::Value::from(b)
}

/// `Value::from` on a `u64`: the compact text is the number in decimal. It does
/// not nest: inside objects it is read at every depth below the recursion limit.
#[verifier::external_body]
pub(crate) fn number_value(n: u64) -> (value: serde_json::Value)
    ensures
        json_text(value) == text::decimal(n as nat),
        forall|levels: nat| 1 <= levels < 128 ==> #[trigger] reads_at(json_text(value), levels),
{
    serde_json::Value::from(n)
}

/// `Value::from` on a `&str`: the compact text is the string literal for it.
/// No other text has this literal, and it starts with a quotation mark. It does
/// not nest: inside objects it is read at every depth below the recursion limit.
#[verifier::external_body]
pub(crate) fn string_value(s: &str) -> (value: serde_json::Value)
    ensures
        json_text(value) == json_quoted(s@),
        forall|other: Seq<char>| #[trigger] json_quoted(other) == json_text(value) ==> other == s@,
        json_text(value).len() >= 2 && json_text(value)[0] == '"',
        forall|levels: nat| 1 <= levels < 128 ==> #[trigger] reads_at(json_text(value), levels),
{
    serde_json::Value::from(s)
}

/// `Value::from` on an object: its compact text lists the members in order.
/// `Value::get` finds the object's members in the value. Where
/// `serde_json::from_str` reads the compact text at all, the object that comes
/// back has the members written. It reads every text whose nesting stays below
/// its recursion limit of 128; so an object is read at a depth below the limit
/// where each of its members is read one deeper.
#[verifier::external_body]
pub(crate) fn object_value(
    object: serde_json::Map<String, serde_json::Value>,
) -> (value: serde_json::Value)
    ensures
        json_text(value) == object_text(json_members(object)),
        forall|key: Seq<char>| #[trigger]
            json_entry(json_text(value), key) == lookup(json_members(object), key),
        json_object(json_text(value)) is Some ==> json_object(json_text(value))
            == Some(json_members(object)),
        shallow(json_text(value)) ==> json_object(json_text(value)) is Some,
        forall|levels: nat|
            members_read_at(json_members(object), levels) ==> #[trigger] reads_at(
                json_text(value),
                levels,
            ),
{
    serde_json::Value::from(object)
}

/// `Map::new`: an object without members.
#[verifier::external_body]
pub(crate) fn new_object() -> (object: serde_json::Map<String, serde_json::Value>)
    ensures
        json_members(object) == Seq::<(Seq<char>, Seq<char>)>::empty(),
{
    serde_json::Map::new()
}

/// `Map::insert` with the order of insertion kept: a new key goes to the end,
/// the value of a key that is there is replaced in place.
#[verifier::external_body]
pub(crate) fn insert(
    object: &mut serde_json::Map<String, serde_json::Value>,
    key: &str,
    value: serde_json::Value,
)
    ensures
        json_members(*final(object)) == put(json_members(*old(object)), key@, json_text(value)),
{
    object.insert(key.to_string(), value);
}

/// `Map::get`, with the member's value cloned.
#[verifier::external_body]
pub(crate) fn member(
    object: &serde_json::Map<String, serde_json::Value>,
    key: &str,
) -> (value: Option<serde_json::Value>)
    ensures
        match value {
            Some(v) => lookup(json_members(*object), key@) == Some(json_text(v)),
            None => lookup(json_members(*object), key@) is None,
        },
{
    object.get(key).cloned()
}

/// `serde_json::from_str` into an object; `None` stands for its error. Since the
/// object was read with its members in it, so is each of them, written out one
/// object deep.
#[verifier::external_body]
pub(crate) fn parse_object(
    text: &str,
) -> (object: Option<serde_json::Map<String, serde_json::Value>>)
    ensures
        match object {
            Some(o) => json_object(text@) == Some(json_members(o)) && members_read_at(
                json_members(o),
                0,
            ),
            None => json_object(text@) is None,
        },
{
    serde_json::from_str(text).ok()
}

/// `Value::to_string`: the compact text. It holds no line feed, since the
/// compact form has no white space between tokens and string literals escape
/// control characters.
#[verifier::external_body]
pub(crate) fn compact_text(value: &serde_json::Value) -> (text: String)
    ensures
        text@ == json_text(*value),
        !text@.contains('\n'),
{
    value.to_string()
}

/// `Value::as_str`: the string that the value is the literal of, if any.
#[verifier::external_body]
pub(crate) fn as_text(value: &serde_json::Value) -> (text: Option<String>)
    ensures
        text matches Some(s) ==> json_text(*value) == json_quoted(s@),
        forall|s: Seq<char>|
            json_text(*value) == #[trigger] json_quoted(s) ==> text is Some && text->0@ == s,
{
    value.as_str().map(String::from)
}

/// `Value::as_u64`: the number that the value is in decimal, if any.
#[verifier::external_body]
pub(crate) fn as_number(value: &serde_json::Value) -> (number: Option<u64>)
    ensures
        number matches Some(n) ==> json_text(*value) == text::decimal(n as nat),
        forall|n: u64|
            json_text(*value) == #[trigger] text::decimal(n as nat) ==> number == Some(n),
{
    value.as_u64()
}

/// `Value::is_null`.
#[verifier::external_body]
pub(crate) fn is_null(value: &serde_json::Value) -> (null: bool)
    ensures
        null == (json_text(*value) == "null"@),
{
    value.is_null()
}

/// `Value::get` with a string index, with the entry cloned. An entry nests less
/// than the object that it is in: it is read one deeper than the object is.
#[verifier::external_body]
pub(crate) fn entry(value: &serde_json::Value, key: &str) -> (found: Option<serde_json::Value>)
    ensures
        match found {
            Some(v) => {
                &&& json_entry(json_text(*value), key@) == Some(json_text(v))
                &&& forall|levels: nat| #[trigger]
                    reads_at(json_text(*value), levels) ==> reads_at(
                        json_text(v),
                        (levels + 1) as nat,
                    )
            },
            None => json_entry(json_text(*value), key@) is None,
        },
{
    value.get(key).cloned()
}

/// `Value::clone`: a value with the same text.
pub assume_specification[ <serde_json::Value as Clone>::clone ](
    value: &serde_json::Value,
) -> (copy: serde_json::Value)
    ensures
        json_text(copy) == json_text(*value),
;

} // verus!
