//! Bounded, printable text: escape sequences and control characters are
//! dropped, white space is collapsed, and the rest is cut to a ceiling.
use vstd::prelude::*;

use crate::text;

verus! {

/// Ceiling for headlines in outbox payloads, in characters.
pub const OUTBOX_HEADLINE_MAX_CHARS: usize = 80;

/// Ceiling for detail fields in outbox payloads, in characters.
pub const OUTBOX_DETAIL_MAX_CHARS: usize = 120;

/// Ceiling for previews in outbox payloads, in characters.
pub const OUTBOX_PREVIEW_MAX_CHARS: usize = 200;

/// Ceiling for workspace paths embedded in outbox payloads, in characters.
pub const OUTBOX_PATH_MAX_CHARS: usize = 512;

/// Suffix that `bounded_text` appends when it cuts a field short.
pub const OUTBOX_TRUNCATION_MARKER: &'static str = "…";

/// What follows a control sequence whose parameters start at `s[0]`: the
/// sequence ends with its first character in `@..=~`, and runs to the end of
/// the text when there is none.
pub open spec fn after_csi(s: Seq<char>) -> Seq<char>
    decreases s.len(),
{
    if s.len() == 0 {
        s
    } else if '\x40' <= s[0] <= '\x7e' {
        s.skip(1)
    } else {
        after_csi(s.skip(1))
    }
}

/// Whether `s` starts with the string terminator, `ESC \`.
pub open spec fn at_string_terminator(s: Seq<char>) -> bool {
    s.len() >= 2 && s[0] == '\x1b' && s[1] == '\\'
}

/// What follows a control string whose body starts at `s[0]`: the string ends
/// with the first terminator `ESC \`, or with BEL where `bell_ends` holds, and
/// runs to the end of the text when there is none.
pub open spec fn after_control_string(s: Seq<char>, bell_ends: bool) -> Seq<char>
    decreases s.len(),
{
    if s.len() == 0 {
        s
    } else if bell_ends && s[0] == '\x07' {
        s.skip(1)
    } else if at_string_terminator(s) {
        s.skip(2)
    } else {
        after_control_string(s.skip(1), bell_ends)
    }
}

/// What follows the escape sequence that starts with the ESC at `s[0]`.
pub open spec fn after_escape(s: Seq<char>) -> Seq<char> {
    if s.len() <= 1 {
        Seq::empty()
    } else if s[1] == '[' {
        after_csi(s.skip(2))
    } else if s[1] == ']' {
        after_control_string(s.skip(2), true)
    } else if s[1] == 'P' || s[1] == 'X' || s[1] == '^' || s[1] == '_' {
        after_control_string(s.skip(2), false)
    } else {
        s.skip(2)
    }
}

/// The visible characters of `s`: no escape sequences, no control characters.
pub open spec fn visible(s: Seq<char>) -> Seq<char>
    decreases s.len(),
{
    if s.len() == 0 {
        s
    } else if s[0] == '\x1b' {
        proof {
            lemma_after_csi_len(s.skip(2));
            lemma_after_control_string_len(s.skip(2), true);
            lemma_after_control_string_len(s.skip(2), false);
        }
        visible(after_escape(s))
    } else if text::is_control(s[0]) {
        visible(s.skip(1))
    } else {
        seq![s[0]] + visible(s.skip(1))
    }
}

/// `s` with each run of white space between visible characters made one
/// space, and none at either end.
pub open spec fn collapsed(s: Seq<char>) -> Seq<char>
    decreases s.len(),
{
    if s.len() == 0 {
        s
    } else {
        let before = collapsed(s.drop_last());
        if text::is_white(s.last()) {
            before
        } else if before.len() > 0 && text::is_white(s[s.len() - 2]) {
            before.push(' ').push(s.last())
        } else {
            before.push(s.last())
        }
    }
}

/// `s` cut to `max` characters, the last of which is the marker when anything
/// was cut. Nothing is left of it where there is no room for the marker.
pub open spec fn cut(s: Seq<char>, max: nat) -> Seq<char> {
    if s.len() <= max {
        s
    } else if max == 0 {
        Seq::empty()
    } else {
        s.take(max - 1) + OUTBOX_TRUNCATION_MARKER@
    }
}

/// The bounded form of `s`.
pub open spec fn bounded(s: Seq<char>, max: nat) -> Seq<char> {
    cut(collapsed(visible(s)), max)
}

pub proof fn lemma_after_csi_len(s: Seq<char>)
    ensures
        after_csi(s).len() <= s.len(),
    decreases s.len(),
{
    if s.len() > 0 && !('\x40' <= s[0] <= '\x7e') {
        lemma_after_csi_len(s.skip(1));
    }
}

pub proof fn lemma_after_control_string_len(s: Seq<char>, bell_ends: bool)
    ensures
        after_control_string(s, bell_ends).len() <= s.len(),
    decreases s.len(),
{
    if s.len() > 0 && !(bell_ends && s[0] == '\x07') && !at_string_terminator(s) {
        lemma_after_control_string_len(s.skip(1), bell_ends);
    }
}

/// The index behind the control sequence whose parameters start at `from`.
fn skip_csi(chars: &Vec<char>, from: usize) -> (next: usize)
    requires
        from <= chars@.len(),
    ensures
        from <= next <= chars@.len(),
        chars@.skip(next as int) == after_csi(chars@.skip(from as int)),
{
    let mut i: usize = from;
    while i < chars.len()
        invariant
            from <= i <= chars@.len(),
            after_csi(chars@.skip(i as int)) == after_csi(chars@.skip(from as int)),
        decreases chars@.len() - i,
    {
        let c = chars[i];
        assert(chars@.skip(i as int).skip(1) =~= chars@.skip(i + 1));
        i += 1;
        if '\x40' <= c && c <= '\x7e' {
            return i;
        }
    }
    i
}

/// The index behind the control string whose body starts at `from`.
fn skip_control_string(chars: &Vec<char>, from: usize, bell_ends: bool) -> (next: usize)
    requires
        from <= chars@.len(),
    ensures
        from <= next <= chars@.len(),
        chars@.skip(next as int) == after_control_string(chars@.skip(from as int), bell_ends),
{
    let mut i: usize = from;
    while i < chars.len()
        invariant
            from <= i <= chars@.len(),
            after_control_string(chars@.skip(i as int), bell_ends) == after_control_string(
                chars@.skip(from as int),
                bell_ends,
            ),
        decreases chars@.len() - i,
    {
        let c = chars[i];
        assert(chars@.skip(i as int).skip(1) =~= chars@.skip(i + 1));
        if bell_ends && c == '\x07' {
            return i + 1;
        }
        if c == '\x1b' && i + 1 < chars.len() && chars[i + 1] == '\\' {
            assert(chars@.skip(i as int).skip(2) =~= chars@.skip(i + 2));
            return i + 2;
        }
        i += 1;
    }
    i
}

/// Removes escape sequences and the remaining control characters from `text`,
/// leaving only the visible content.
///
/// Covers control sequences (`ESC [` through the final character in `@..=~`),
/// operating system commands (`ESC ]` through BEL or `ESC \`), the other
/// control strings (`ESC P/X/^/_` through `ESC \`) and two-character escapes.
/// An unterminated sequence is dropped whole.
pub fn strip_ansi(text: &str) -> (out: String)
    ensures
        out@ == visible(text@),
{
    let chars = text::to_chars(text);
    let mut out = String::new();
    let mut i: usize = 0;
    assert(chars@.skip(0) =~= chars@);
    while i < chars.len()
        invariant
            i <= chars@.len(),
            out@ + visible(chars@.skip(i as int)) == visible(chars@),
        decreases chars@.len() - i,
    {
        let ghost rest = chars@.skip(i as int);
        let ghost done = out@;
        let c = chars[i];
        assert(rest.skip(1) =~= chars@.skip(i + 1));
        if c != '\x1b' {
            if !text::is_control_char(c) {
                out.push(c);
                assert(done.push(c) + visible(rest.skip(1)) =~= done + (seq![c] + visible(
                    rest.skip(1),
                )));
            }
            i += 1;
        } else if i + 1 == chars.len() {
            i += 1;
            assert(chars@.skip(i as int) =~= Seq::empty());
        } else {
            let introducer = chars[i + 1];
            assert(rest.skip(2) =~= chars@.skip(i + 2));
            i = if introducer == '[' {
                skip_csi(&chars, i + 2)
            } else if introducer == ']' {
                skip_control_string(&chars, i + 2, true)
            } else if introducer == 'P' || introducer == 'X' || introducer == '^' || introducer
                == '_' {
                skip_control_string(&chars, i + 2, false)
            } else {
                i + 2
            };
        }
    }
    assert(chars@.skip(i as int) =~= Seq::empty());
    assert(out@ + Seq::<char>::empty() =~= out@);
    out
}

/// `text` with white space collapsed.
pub fn collapse_white_space(text: &str) -> (out: String)
    ensures
        out@ == collapsed(text@),
{
    let chars = text::to_chars(text);
    let mut out = String::new();
    let mut shown = false;
    let mut i: usize = 0;
    while i < chars.len()
        invariant
            i <= chars@.len(),
            shown == (out@.len() > 0),
            out@ == collapsed(chars@.take(i as int)),
        decreases chars@.len() - i,
    {
        let c = chars[i];
        assert(chars@.take(i + 1).drop_last() =~= chars@.take(i as int));
        if !text::is_white_space(c) {
            if shown && text::is_white_space(chars[i - 1]) {
                out.push(' ');
            }
            out.push(c);
            shown = true;
        }
        i += 1;
    }
    assert(chars@.take(i as int) =~= chars@);
    out
}

/// Bounds free-form text to at most `max_chars` characters: escape sequences
/// and control characters are stripped and white space is collapsed first, and
/// a cut is marked with `OUTBOX_TRUNCATION_MARKER`.
///
/// The ceiling counts characters, not bytes. Under a ceiling of 0 there is no
/// room even for the marker, and nothing is left.
pub fn bounded_text(text: &str, max_chars: usize) -> (out: String)
    ensures
        out@ == bounded(text@, max_chars as nat),
{
    let visible_text = strip_ansi(text);
    let cleaned = collapse_white_space(visible_text.as_str());
    let chars = text::to_chars(cleaned.as_str());
    if chars.len() <= max_chars {
        cleaned
    } else if max_chars == 0 {
        String::new()
    } else {
        let mut out = text::substring(&chars, 0, max_chars - 1);
        assert(out@ =~= cleaned@.take(max_chars - 1));
        out.append(OUTBOX_TRUNCATION_MARKER);
        out
    }
}

/// Text in its collapsed form: the only white space is the space, and a space
/// stands neither at an end nor beside another one.
pub open spec fn tidy(s: Seq<char>) -> bool {
    forall|i: int| #![trigger s[i]]
        0 <= i < s.len() && text::is_white(s[i]) ==> s[i] == ' ' && 0 < i < s.len() - 1
            && !text::is_white(s[i + 1])
}

/// Text without control characters.
pub open spec fn printable(s: Seq<char>) -> bool {
    forall|i: int| 0 <= i < s.len() ==> !text::is_control(#[trigger] s[i])
}

proof fn lemma_visible_printable(s: Seq<char>)
    ensures
        printable(visible(s)),
    decreases s.len(),
{
    if s.len() > 0 {
        if s[0] == '\x1b' {
            lemma_after_csi_len(s.skip(2));
            lemma_after_control_string_len(s.skip(2), true);
            lemma_after_control_string_len(s.skip(2), false);
            lemma_visible_printable(after_escape(s));
        } else {
            lemma_visible_printable(s.skip(1));
        }
    }
}

proof fn lemma_visible_of_printable(s: Seq<char>)
    requires
        printable(s),
    ensures
        visible(s) == s,
    decreases s.len(),
{
    if s.len() > 0 {
        assert(!text::is_control(s[0]));
        assert forall|i: int| 0 <= i < s.skip(1).len() implies !text::is_control(
            #[trigger] s.skip(1)[i],
        ) by {
            assert(s.skip(1)[i] == s[i + 1]);
        }
        lemma_visible_of_printable(s.skip(1));
        assert(seq![s[0]] + s.skip(1) =~= s);
    }
}

proof fn lemma_collapsed_tidy(s: Seq<char>)
    ensures
        tidy(collapsed(s)),
        printable(s) ==> printable(collapsed(s)),
        collapsed(s).len() > 0 ==> !text::is_white(collapsed(s).last()),
    decreases s.len(),
{
    if s.len() > 0 {
        lemma_collapsed_tidy(s.drop_last());
        let before = collapsed(s.drop_last());
        if printable(s) {
            assert(printable(s.drop_last()));
            assert(!text::is_control(s[s.len() - 1]));
        }
        let c = collapsed(s);
        assert forall|i: int| #![trigger c[i]] 0 <= i < c.len() && text::is_white(c[i]) implies c[i]
            == ' ' && 0 < i < c.len() - 1 && !text::is_white(c[i + 1]) by {
            if i < before.len() {
                assert(c[i] == before[i]);
                assert(before[i + 1] == c[i + 1]);
            }
        }
    }
}

proof fn lemma_collapsed_of_tidy(s: Seq<char>)
    requires
        tidy(s),
    ensures
        collapsed(s) == s,
{
    lemma_collapsed_prefix_of_tidy(s, s.len());
    assert(s.take(s.len() as int) =~= s);
}

proof fn lemma_collapsed_prefix_of_tidy(s: Seq<char>, n: nat)
    requires
        tidy(s),
        n <= s.len(),
    ensures
        n == 0 || !text::is_white(s[n - 1]) ==> collapsed(s.take(n as int)) == s.take(n as int),
        n > 0 && text::is_white(s[n - 1]) ==> n >= 2 && collapsed(
            s.take(n as int),
        ) == s.take(n - 1),
    decreases n,
{
    if n > 0 {
        let m = (n - 1) as nat;
        lemma_collapsed_prefix_of_tidy(s, m);
        assert(s.take(n as int).drop_last() =~= s.take(m as int));
        if m > 0 && text::is_white(s[m - 1]) {
            assert(s[m - 1] == ' ' && !text::is_white(s[m - 1 + 1]));
            assert(s.take(m - 1).push(' ').push(s[m as int]) =~= s.take(n as int));
        } else {
            assert(s.take(m as int).push(s[m as int]) =~= s.take(n as int));
        }
    }
}

/// Bounded text never has more than `max` characters, holds no control
/// character (and so no escape sequence), and holds white space only as
/// single spaces between other characters.
pub proof fn law_bounded_is_bounded_and_clean(s: Seq<char>, max: nat)
    ensures
        bounded(s, max).len() <= max,
        printable(bounded(s, max)),
        tidy(bounded(s, max)),
{
    reveal_strlit("…");
    lemma_visible_printable(s);
    lemma_collapsed_tidy(visible(s));
    let c = collapsed(visible(s));
    let b = bounded(s, max);
    if c.len() > max && max > 0 {
        assert forall|i: int| #![trigger b[i]] 0 <= i < b.len() && text::is_white(b[i]) implies b[i]
            == ' ' && 0 < i < b.len() - 1 && !text::is_white(b[i + 1]) by {
            assert(b[i] == c[i]);
            if i + 1 < max - 1 {
                assert(b[i + 1] == c[i + 1]);
            }
        }
        assert forall|i: int| 0 <= i < b.len() implies !text::is_control(#[trigger] b[i]) by {
            if i < max - 1 {
                assert(b[i] == c[i]);
            }
        }
    }
}

/// Bounding text that is already bounded changes nothing.
pub proof fn law_bounded_is_idempotent(s: Seq<char>, max: nat)
    ensures
        bounded(bounded(s, max), max) == bounded(s, max),
{
    law_bounded_is_bounded_and_clean(s, max);
    lemma_visible_of_printable(bounded(s, max));
    lemma_collapsed_of_tidy(bounded(s, max));
}

/// Text that is clean and short enough already is kept as it is.
pub proof fn law_clean_text_is_kept(s: Seq<char>, max: nat)
    requires
        printable(s),
        tidy(s),
        s.len() <= max,
    ensures
        bounded(s, max) == s,
{
    lemma_visible_of_printable(s);
    lemma_collapsed_of_tidy(s);
}

/// The characters of `s` that are not white space, in order.
pub open spec fn ink(s: Seq<char>) -> Seq<char> {
    s.filter(|c: char| !text::is_white(c))
}

/// Collapsing white space loses no other character and changes no order.
pub proof fn law_collapsing_keeps_the_ink(s: Seq<char>)
    ensures
        ink(collapsed(s)) == ink(s),
    decreases s.len(),
{
    reveal(Seq::filter);
    if s.len() > 0 {
        let before = collapsed(s.drop_last());
        law_collapsing_keeps_the_ink(s.drop_last());
        if !text::is_white(s.last()) {
            if before.len() > 0 && text::is_white(s[s.len() - 2]) {
                assert(before.push(' ').push(s.last()).drop_last() =~= before.push(' '));
                assert(before.push(' ').drop_last() =~= before);
                assert(ink(before.push(' ')) == ink(before));
            } else {
                assert(before.push(s.last()).drop_last() =~= before);
            }
        }
    }
}

} // verus!
