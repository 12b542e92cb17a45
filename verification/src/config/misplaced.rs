//! Noticing settings that were nested under a section nobody reads.
use vstd::prelude::*;

use crate::text;

verus! {

/// A TOML value; opaque, modelled by `toml_sections`.
#[verifier::external_type_specification]
#[verifier::external_body]
pub struct ExTomlValue(toml::Value);

/// The tables at the top level of a TOML document, and the keys of each.
pub uninterp spec fn toml_sections(document: toml::Value) -> Map<Seq<char>, Set<Seq<char>>>;

/// The tables of the document that `toml::from_str` reads from a text, or `None`
/// where it reads none.
pub uninterp spec fn toml_document(raw: Seq<char>) -> Option<Map<Seq<char>, Set<Seq<char>>>>;

/// `toml::from_str` into a value; `None` stands for its error.
#[verifier::external_body]
fn parse_document(raw: &str) -> (document: Option<toml::Value>)
    ensures
        match document {
            Some(d) => toml_document(raw@) == Some(toml_sections(d)),
            None => toml_document(raw@) is None,
        },
{
    toml::from_str(raw).ok()
}

/// `Value::get` and `Value::as_table` for the section, and `contains_key` on the
/// table: whether the document has a table `section` with the key `key`.
#[verifier::external_body]
fn section_has_key(document: &toml::Value, section: &str, key: &str) -> (has: bool)
    ensures
        has == has_key(toml_sections(*document), section@, key@),
{
    match document.get(section).and_then(toml::Value::as_table) {
        Some(table) => table.contains_key(key),
        None => false,
    }
}

/// Whether there is a table `section` with the key `key`.
pub open spec fn has_key(
    sections: Map<Seq<char>, Set<Seq<char>>>,
    section: Seq<char>,
    key: Seq<char>,
) -> bool {
    sections.contains_key(section) && sections[section].contains(key)
}

/// The mention of one misplaced key, if it is misplaced.
pub open spec fn hit(
    sections: Map<Seq<char>, Set<Seq<char>>>,
    section: Seq<char>,
    key: Seq<char>,
) -> Seq<Seq<char>> {
    if has_key(sections, section, key) {
        seq!["`"@ + section + "."@ + key + "`"@]
    } else {
        Seq::empty()
    }
}

/// The mentions of the keys misplaced in one section.
pub open spec fn hits_in(
    sections: Map<Seq<char>, Set<Seq<char>>>,
    section: Seq<char>,
) -> Seq<Seq<char>> {
    hit(sections, section, "allow_shell"@) + hit(sections, section, "sandbox_mode"@) + hit(
        sections,
        section,
        "approval_policy"@,
    ) + hit(sections, section, "verbosity"@)
}

/// The mentions of all misplaced keys: those that are only ever read at the top
/// level, in the two sections that users tend to put them in.
pub open spec fn hits(sections: Map<Seq<char>, Set<Seq<char>>>) -> Seq<Seq<char>> {
    hits_in(sections, "general"@) + hits_in(sections, "sandbox"@)
}

/// What the user is told of some misplaced keys.
pub open spec fn warning(mentions: Seq<Seq<char>>) -> Seq<char> {
    "Ignoring "@ + text::joined(mentions, ", "@) + WARNING_TAIL@
}

/// What is said behind the list of misplaced keys.
pub const WARNING_TAIL: &'static str =
    " — Codewhale has no `[general]` or `[sandbox]` section, so these keys are silently dropped. Move them to the TOP of the config file (above any `[section]` header), e.g. `allow_shell = true`. Until then, shell tools stay disabled. (#2589)";

/// The warning for a document with these misplaced keys, if there are any.
pub open spec fn warning_for(sections: Map<Seq<char>, Set<Seq<char>>>) -> Option<Seq<char>> {
    if hits(sections).len() == 0 {
        None
    } else {
        Some(warning(hits(sections)))
    }
}

/// Adds the mention of one key, if it is misplaced.
fn collect_hit(document: &toml::Value, section: &str, key: &str, mentions: &mut Vec<String>)
    ensures
        text::texts(final(mentions)@) == text::texts(old(mentions)@) + hit(
            toml_sections(*document),
            section@,
            key@,
        ),
{
    let ghost before = text::texts(mentions@);
    if section_has_key(document, section, key) {
        let mut mention = "`".to_string();
        mention.append(section);
        mention.append(".");
        mention.append(key);
        mention.append("`");
        mentions.push(mention);
        assert(text::texts(mentions@) =~= before + seq![mention@]);
    } else {
        assert(before + Seq::<Seq<char>>::empty() =~= before);
    }
}

/// Adds the mentions of the keys misplaced in one section.
fn collect_section(document: &toml::Value, section: &str, mentions: &mut Vec<String>)
    ensures
        text::texts(final(mentions)@) == text::texts(old(mentions)@) + hits_in(
            toml_sections(*document),
            section@,
        ),
{
    let ghost before = text::texts(mentions@);
    collect_hit(document, section, "allow_shell", mentions);
    collect_hit(document, section, "sandbox_mode", mentions);
    collect_hit(document, section, "approval_policy", mentions);
    collect_hit(document, section, "verbosity", mentions);
    assert(text::texts(mentions@) =~= before + hits_in(toml_sections(*document), section@));
}

/// The warning for some misplaced keys, if there are any.
pub fn misplaced_keys_warning(mentions: &Vec<String>) -> (message: Option<String>)
    ensures
        text::optional(message) == if mentions@.len() == 0 {
            None
        } else {
            Some(warning(text::texts(mentions@)))
        },
{
    if mentions.len() == 0 {
        return None;
    }
    let mut message = "Ignoring ".to_string();
    message.append(text::join(mentions.as_slice(), ", ").as_str());
    message.append(WARNING_TAIL);
    Some(message)
}

/// Builds a one-line warning when keys that belong at the top level are nested
/// under `[general]` or `[sandbox]`, which are no sections: TOML drops them
/// without a word. There is no warning when nothing is misplaced, nor for a
/// text that is not TOML.
pub fn warn_on_misplaced_top_level_keys(raw: &str) -> (message: Option<String>)
    ensures
        text::optional(message) == match toml_document(raw@) {
            Some(sections) => warning_for(sections),
            None => None,
        },
{
    let document = parse_document(raw)?;
    let mut mentions: Vec<String> = Vec::new();
    assert(text::texts(mentions@) =~= Seq::<Seq<char>>::empty());
    collect_section(&document, "general", &mut mentions);
    collect_section(&document, "sandbox", &mut mentions);
    assert(text::texts(mentions@) =~= hits(toml_sections(document)));
    misplaced_keys_warning(&mentions)
}

/// Whether a document has a table with a key.
pub open spec fn nested(
    sections: Map<Seq<char>, Set<Seq<char>>>,
    section: Seq<char>,
    key: Seq<char>,
) -> bool {
    sections.contains_key(section) && sections[section].contains(key)
}

/// Whether a key is one that is only ever read at the top level.
pub open spec fn belongs_on_top(key: Seq<char>) -> bool {
    key == "allow_shell"@ || key == "sandbox_mode"@ || key == "approval_policy"@ || key
        == "verbosity"@
}

/// Whether a section is one that nobody reads.
pub open spec fn is_no_section(section: Seq<char>) -> bool {
    section == "general"@ || section == "sandbox"@
}

proof fn lemma_mentioned(
    sections: Map<Seq<char>, Set<Seq<char>>>,
    section: Seq<char>,
    key: Seq<char>,
)
    requires
        belongs_on_top(key),
        nested(sections, section, key),
    ensures
        hits_in(sections, section).contains("`"@ + section + "."@ + key + "`"@),
{
    let a = hit(sections, section, "allow_shell"@);
    let b = hit(sections, section, "sandbox_mode"@);
    let c = hit(sections, section, "approval_policy"@);
    let d = hit(sections, section, "verbosity"@);
    let all = hits_in(sections, section);
    let mention = "`"@ + section + "."@ + key + "`"@;
    assert(all == a + b + c + d);
    if key == "allow_shell"@ {
        assert(all[0] == mention);
    } else if key == "sandbox_mode"@ {
        assert(all[a.len() as int] == mention);
    } else if key == "approval_policy"@ {
        assert(all[(a + b).len() as int] == mention);
    } else {
        assert(all[(a + b + c).len() as int] == mention);
    }
}

proof fn lemma_mention_means(
    sections: Map<Seq<char>, Set<Seq<char>>>,
    section: Seq<char>,
    at: int,
)
    requires
        0 <= at < hits_in(sections, section).len(),
    ensures
        exists|key: Seq<char>| #[trigger]
            belongs_on_top(key) && nested(sections, section, key) && hits_in(sections, section)[at]
                == "`"@ + section + "."@ + key + "`"@,
{
    let a = hit(sections, section, "allow_shell"@);
    let b = hit(sections, section, "sandbox_mode"@);
    let c = hit(sections, section, "approval_policy"@);
    assert(belongs_on_top("allow_shell"@));
    assert(belongs_on_top("sandbox_mode"@));
    assert(belongs_on_top("approval_policy"@));
    assert(belongs_on_top("verbosity"@));
    if at < a.len() {
        assert(hits_in(sections, section)[at] == a[at]);
    } else if at < (a + b).len() {
        assert(hits_in(sections, section)[at] == b[at - a.len()]);
    } else if at < (a + b + c).len() {
        assert(hits_in(sections, section)[at] == c[at - (a + b).len()]);
    }
}

/// A key that belongs at the top level is mentioned exactly where it is nested in
/// a section that nobody reads, with that section, and nothing else is mentioned.
/// There is a warning exactly where there is a mention.
pub proof fn law_misplaced_keys_are_mentioned(
    sections: Map<Seq<char>, Set<Seq<char>>>,
    section: Seq<char>,
    key: Seq<char>,
)
    ensures
        is_no_section(section) && belongs_on_top(key) && nested(sections, section, key) ==> hits(
            sections,
        ).contains("`"@ + section + "."@ + key + "`"@) && warning_for(sections) is Some,
        forall|i: int|
            0 <= i < hits(sections).len() ==> exists|s: Seq<char>, k: Seq<char>|
                is_no_section(s) && belongs_on_top(k) && #[trigger] nested(sections, s, k)
                    && #[trigger] hits(sections)[i] == "`"@ + s + "."@ + k + "`"@,
        (forall|s: Seq<char>, k: Seq<char>|
            is_no_section(s) && belongs_on_top(k) ==> !(#[trigger] nested(sections, s, k)))
            ==> warning_for(sections) is None,
        warning_for(sections) matches Some(message) ==> message == "Ignoring "@ + text::joined(
            hits(sections),
            ", "@,
        ) + WARNING_TAIL@,
{
    let general = hits_in(sections, "general"@);
    let sandbox = hits_in(sections, "sandbox"@);
    let all = hits(sections);
    if is_no_section(section) && belongs_on_top(key) && nested(sections, section, key) {
        lemma_mentioned(sections, section, key);
        let mention = "`"@ + section + "."@ + key + "`"@;
        if section == "general"@ {
            let i = choose|i: int| 0 <= i < general.len() && general[i] == mention;
            assert(all[i] == mention);
        } else {
            let i = choose|i: int| 0 <= i < sandbox.len() && sandbox[i] == mention;
            assert(all[general.len() + i] == mention);
        }
    }
    assert forall|i: int| 0 <= i < all.len() implies exists|s: Seq<char>, k: Seq<char>|
        is_no_section(s) && belongs_on_top(k) && #[trigger] nested(sections, s, k)
            && #[trigger] hits(sections)[i] == "`"@ + s + "."@ + k + "`"@ by {
        if i < general.len() {
            lemma_mention_means(sections, "general"@, i);
            assert(all[i] == general[i]);
            assert(is_no_section("general"@));
        } else {
            lemma_mention_means(sections, "sandbox"@, i - general.len());
            assert(all[i] == sandbox[i - general.len()]);
            assert(is_no_section("sandbox"@));
        }
    }
    if all.len() > 0 {
        assert(exists|s: Seq<char>, k: Seq<char>|
            is_no_section(s) && belongs_on_top(k) && #[trigger] nested(sections, s, k)
                && all[0] == "`"@ + s + "."@ + k + "`"@);
    }
}

} // verus!
