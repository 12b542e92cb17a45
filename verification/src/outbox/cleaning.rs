//! What bounded text keeps of a text, and what it drops: the laws of escape
//! sequences, white space and ceilings.
use vstd::prelude::*;

use crate::outbox::bounded;
use crate::text;

verus! {

/// Cleaned text that is too long is cut to the ceiling exactly: all its
/// characters but the last are the first ones of the text, in their places, and
/// the last one is an ellipsis. Text within the ceiling is kept whole, and under a
/// ceiling of 0 nothing is.
pub proof fn law_long_text_keeps_its_beginning(s: Seq<char>, max: nat)
    ensures
        ({
            let c = bounded::collapsed(bounded::visible(s));
            let b = bounded::bounded(s, max);
            &&& c.len() > max && max > 0 ==> b.len() == max && b.last() == '…' && (forall|i: int|
                0 <= i < max - 1 ==> #[trigger] b[i] == c[i])
            &&& c.len() <= max ==> b == c
            &&& max == 0 ==> b.len() == 0
        }),
{
    reveal_strlit("…");
}

/// Printable text before another is kept as it stands.
pub proof fn law_printable_text_is_kept(plain: Seq<char>, rest: Seq<char>)
    requires
        forall|i: int|
            0 <= i < plain.len() ==> ' ' <= #[trigger] plain[i] && !('\u{7f}' <= plain[i]
                <= '\u{9f}'),
    ensures
        bounded::visible(plain + rest) == plain + bounded::visible(rest),
    decreases plain.len(),
{
    let s = plain + rest;
    if plain.len() == 0 {
        assert(s =~= rest);
        assert(plain + bounded::visible(rest) =~= bounded::visible(rest));
    } else {
        let fewer = plain.skip(1);
        assert forall|i: int| 0 <= i < fewer.len() implies ' ' <= #[trigger] fewer[i] && !('\u{7f}'
            <= fewer[i] <= '\u{9f}') by {
            assert(fewer[i] == plain[i + 1]);
        }
        law_printable_text_is_kept(fewer, rest);
        assert(s.skip(1) =~= fewer + rest);
        assert(s[0] == plain[0]);
        assert(seq![plain[0]] + (fewer + bounded::visible(rest)) =~= plain + bounded::visible(
            rest,
        ));
    }
}

/// A control character that starts no escape sequence is dropped.
pub proof fn law_control_characters_are_dropped(c: char, rest: Seq<char>)
    requires
        c < ' ' || '\u{7f}' <= c <= '\u{9f}',
        c != '\x1b',
    ensures
        bounded::visible(seq![c] + rest) == bounded::visible(rest),
{
    let s = seq![c] + rest;
    assert(s.skip(1) =~= rest);
    assert(s[0] == c);
}

proof fn lemma_after_csi(params: Seq<char>, rest: Seq<char>)
    requires
        forall|i: int|
            0 <= i < params.len() ==> !('@' <= #[trigger] params[i] && params[i] <= '~'),
        rest.len() == 0 || '@' <= rest[0] <= '~',
    ensures
        bounded::after_csi(params + rest) == if rest.len() == 0 {
            rest
        } else {
            rest.skip(1)
        },
    decreases params.len(),
{
    let s = params + rest;
    if params.len() == 0 {
        assert(s =~= rest);
    } else {
        let fewer = params.skip(1);
        assert forall|i: int| 0 <= i < fewer.len() implies !('@' <= #[trigger] fewer[i]
            && fewer[i] <= '~') by {
            assert(fewer[i] == params[i + 1]);
        }
        lemma_after_csi(fewer, rest);
        assert(s.skip(1) =~= fewer + rest);
        assert(s[0] == params[0]);
    }
}

/// A control sequence, `ESC [` up to its first character between `@` and `~`, is
/// dropped, and what follows it is kept. One that never ends takes the rest of the
/// text with it.
pub proof fn law_control_sequences_are_dropped(params: Seq<char>, last: char, rest: Seq<char>)
    requires
        forall|i: int|
            0 <= i < params.len() ==> !('@' <= #[trigger] params[i] && params[i] <= '~'),
        '@' <= last <= '~',
    ensures
        bounded::visible(seq!['\x1b', '['] + params + seq![last] + rest) == bounded::visible(rest),
        bounded::visible(seq!['\x1b', '['] + params).len() == 0,
{
    let s = seq!['\x1b', '['] + params + seq![last] + rest;
    let tail = seq![last] + rest;
    assert(s.skip(2) =~= params + tail);
    lemma_after_csi(params, tail);
    assert(tail.skip(1) =~= rest);
    assert(s[0] == '\x1b' && s[1] == '[');
    let open = seq!['\x1b', '['] + params;
    let none = Seq::<char>::empty();
    assert(open.skip(2) =~= params + none);
    lemma_after_csi(params, none);
    assert(bounded::visible(none).len() == 0);
    assert(open[0] == '\x1b' && open[1] == '[');
}

/// Whether the body of a control string does not end it: there is no `ESC \` in
/// it, and no BEL where BEL ends it.
pub open spec fn goes_on(body: Seq<char>, bell_ends: bool) -> bool {
    &&& forall|i: int|
        0 <= i < body.len() - 1 ==> !(#[trigger] body[i] == '\x1b' && body[i + 1] == '\\')
    &&& bell_ends ==> forall|i: int| 0 <= i < body.len() ==> #[trigger] body[i] != '\x07'
}

proof fn lemma_after_control_string(body: Seq<char>, rest: Seq<char>, bell_ends: bool)
    requires
        goes_on(body, bell_ends),
        rest.len() == 0 || (bell_ends && rest[0] == '\x07') || (rest.len() >= 2 && rest[0] == '\x1b'
            && rest[1] == '\\'),
    ensures
        bounded::after_control_string(body + rest, bell_ends) == if rest.len() == 0 {
            rest
        } else if bell_ends && rest[0] == '\x07' {
            rest.skip(1)
        } else {
            rest.skip(2)
        },
    decreases body.len(),
{
    let s = body + rest;
    if body.len() == 0 {
        assert(s =~= rest);
    } else {
        let fewer = body.skip(1);
        assert(goes_on(fewer, bell_ends)) by {
            assert forall|i: int| 0 <= i < fewer.len() - 1 implies !(#[trigger] fewer[i]
                == '\x1b' && fewer[i + 1] == '\\') by {
                assert(fewer[i] == body[i + 1] && fewer[i + 1] == body[i + 2]);
            }
            if bell_ends {
                assert forall|i: int| 0 <= i < fewer.len() implies #[trigger] fewer[i]
                    != '\x07' by {
                    assert(fewer[i] == body[i + 1]);
                }
            }
        }
        lemma_after_control_string(fewer, rest, bell_ends);
        assert(s.skip(1) =~= fewer + rest);
        assert(s[0] == body[0]);
        if s.len() >= 2 {
            if body.len() >= 2 {
                assert(s[1] == body[1]);
            } else {
                assert(s[1] == rest[0]);
            }
        }
    }
}

/// A control string, `ESC` and one of `]`, `P`, `X`, `^` and `_` up to its first
/// `ESC \`, is dropped, and what follows it is kept. BEL ends it too where it
/// begins with `ESC ]`, and only there. One that never ends takes the rest of the
/// text with it.
pub proof fn law_control_strings_are_dropped(kind: char, body: Seq<char>, rest: Seq<char>)
    requires
        kind == ']' || kind == 'P' || kind == 'X' || kind == '^' || kind == '_',
        goes_on(body, kind == ']'),
    ensures
        bounded::visible(seq!['\x1b', kind] + body + seq!['\x1b', '\\'] + rest)
            == bounded::visible(rest),
        kind == ']' ==> bounded::visible(seq!['\x1b', kind] + body + seq!['\x07'] + rest)
            == bounded::visible(rest),
        bounded::visible(seq!['\x1b', kind] + body).len() == 0,
{
    let bell_ends = kind == ']';
    let with_escape = seq!['\x1b', kind] + body + seq!['\x1b', '\\'] + rest;
    let escape_tail = seq!['\x1b', '\\'] + rest;
    assert(with_escape.skip(2) =~= body + escape_tail);
    assert(escape_tail.skip(2) =~= rest);
    lemma_after_control_string(body, escape_tail, bell_ends);
    assert(with_escape[0] == '\x1b' && with_escape[1] == kind);
    if bell_ends {
        let with_bell = seq!['\x1b', kind] + body + seq!['\x07'] + rest;
        let bell_tail = seq!['\x07'] + rest;
        assert(with_bell.skip(2) =~= body + bell_tail);
        assert(bell_tail.skip(1) =~= rest);
        lemma_after_control_string(body, bell_tail, bell_ends);
        assert(with_bell[0] == '\x1b' && with_bell[1] == kind);
    }
    let open = seq!['\x1b', kind] + body;
    let none = Seq::<char>::empty();
    assert(open.skip(2) =~= body + none);
    lemma_after_control_string(body, none, bell_ends);
    assert(bounded::visible(none).len() == 0);
    assert(open[0] == '\x1b' && open[1] == kind);
}

/// Any other escape is two characters long: it is dropped, and what follows is
/// kept. An escape character at the end of a text is dropped.
pub proof fn law_short_escapes_are_dropped(c: char, rest: Seq<char>)
    requires
        c != '[' && c != ']' && c != 'P' && c != 'X' && c != '^' && c != '_',
    ensures
        bounded::visible(seq!['\x1b', c] + rest) == bounded::visible(rest),
        bounded::visible(seq!['\x1b']).len() == 0,
{
    let s = seq!['\x1b', c] + rest;
    assert(s.skip(2) =~= rest);
    assert(s[0] == '\x1b' && s[1] == c);
    assert(bounded::after_escape(seq!['\x1b']) =~= Seq::empty());
    assert(bounded::visible(Seq::empty()).len() == 0);
}

proof fn lemma_trailing_white(s: Seq<char>, gap: Seq<char>)
    requires
        forall|i: int| 0 <= i < gap.len() ==> text::is_white(#[trigger] gap[i]),
    ensures
        bounded::collapsed(s + gap) == bounded::collapsed(s),
    decreases gap.len(),
{
    if gap.len() == 0 {
        assert(s + gap =~= s);
    } else {
        lemma_trailing_white(s, gap.drop_last());
        assert((s + gap).drop_last() =~= s + gap.drop_last());
        assert((s + gap).last() == gap[gap.len() - 1]);
    }
}

/// White space between two texts becomes one space, however much of it there is,
/// and nothing where one of the texts holds nothing else.
pub proof fn law_gaps_become_one_space(first: Seq<char>, gap: Seq<char>, second: Seq<char>)
    requires
        gap.len() > 0,
        forall|i: int| 0 <= i < gap.len() ==> text::is_white(#[trigger] gap[i]),
    ensures
        ({
            let a = bounded::collapsed(first);
            let b = bounded::collapsed(second);
            bounded::collapsed(first + gap + second) == if a.len() == 0 {
                b
            } else if b.len() == 0 {
                a
            } else {
                a + seq![' '] + b
            }
        }),
    decreases second.len(),
{
    let all = first + gap + second;
    let a = bounded::collapsed(first);
    if second.len() == 0 {
        lemma_trailing_white(first, gap);
        assert(all =~= first + gap);
        assert(bounded::collapsed(second) =~= Seq::empty());
        assert(a.len() == 0 ==> a =~= Seq::empty());
    } else {
        let fewer = second.drop_last();
        let last = second.last();
        law_gaps_become_one_space(first, gap, fewer);
        assert(all.drop_last() =~= first + gap + fewer);
        assert(all.last() == last);
        let before = bounded::collapsed(first + gap + fewer);
        let b = bounded::collapsed(fewer);
        if !text::is_white(last) {
            if fewer.len() == 0 {
                assert(all[all.len() - 2] == gap[gap.len() - 1]);
                assert(b =~= Seq::empty());
                assert(a.push(' ').push(last) =~= a + seq![' '] + seq![last]);
                assert(bounded::collapsed(second) =~= seq![last]);
            } else {
                assert(all[all.len() - 2] == fewer.last());
                assert(second[second.len() - 2] == fewer.last());
                if b.len() == 0 {
                    assert(text::is_white(fewer.last()));
                    assert(bounded::collapsed(second) =~= seq![last]);
                    assert(a.push(' ').push(last) =~= a + seq![' '] + seq![last]);
                    assert(before.len() == 0 ==> before.push(last) =~= seq![last]);
                } else if a.len() > 0 {
                    assert((a + seq![' '] + b).push(last) =~= a + seq![' '] + b.push(last));
                    assert((a + seq![' '] + b).push(' ').push(last) =~= a + seq![' '] + b.push(
                        ' ',
                    ).push(last));
                }
            }
        }
    }
}

/// Where no white space stands between two texts, none is put there, and text
/// without white space is kept as it stands.
pub proof fn law_no_gap_no_space(first: Seq<char>, second: Seq<char>)
    requires
        first.len() > 0 && !text::is_white(first.last()),
        second.len() > 0 && !text::is_white(second[0]),
    ensures
        bounded::collapsed(first + second) == bounded::collapsed(first) + bounded::collapsed(
            second,
        ),
    decreases second.len(),
{
    let all = first + second;
    let fewer = second.drop_last();
    let a = bounded::collapsed(first);
    assert(all.drop_last() =~= first + fewer);
    assert(all.last() == second.last());
    if second.len() == 1 {
        assert(fewer =~= Seq::empty());
        assert(bounded::collapsed(fewer) =~= Seq::empty());
        assert(first + fewer =~= first);
        assert(all[all.len() - 2] == first.last());
        assert(bounded::collapsed(second) =~= seq![second[0]]);
        assert(a.push(second[0]) =~= a + seq![second[0]]);
    } else {
        law_no_gap_no_space(first, fewer);
        let b = bounded::collapsed(fewer);
        lemma_starts_with_ink(fewer);
        assert(all[all.len() - 2] == second[second.len() - 2]);
        let last = second.last();
        assert((a + b).push(last) =~= a + b.push(last));
        assert((a + b).push(' ').push(last) =~= a + b.push(' ').push(last));
    }
}

proof fn lemma_starts_with_ink(s: Seq<char>)
    requires
        s.len() > 0,
        !text::is_white(s[0]),
    ensures
        bounded::collapsed(s).len() > 0,
    decreases s.len(),
{
    if s.len() > 1 {
        lemma_starts_with_ink(s.drop_last());
    }
}

/// Text without white space is kept as it stands, and white space alone gives
/// nothing.
pub proof fn law_collapsing_one_word(word: Seq<char>, gap: Seq<char>)
    requires
        forall|i: int| 0 <= i < word.len() ==> !text::is_white(#[trigger] word[i]),
        forall|i: int| 0 <= i < gap.len() ==> text::is_white(#[trigger] gap[i]),
    ensures
        bounded::collapsed(word) == word,
        bounded::collapsed(gap).len() == 0,
    decreases word.len(),
{
    lemma_trailing_white(Seq::empty(), gap);
    assert(Seq::<char>::empty() + gap =~= gap);
    assert(bounded::collapsed(Seq::empty()).len() == 0);
    if word.len() > 0 {
        let fewer = word.drop_last();
        assert forall|i: int| 0 <= i < fewer.len() implies !text::is_white(#[trigger] fewer[i]) by {
            assert(fewer[i] == word[i]);
        }
        law_collapsing_one_word(fewer, gap);
        if fewer.len() > 0 {
            assert(!text::is_white(word[word.len() - 2]));
        }
        assert(!text::is_white(word[word.len() - 1]));
        assert(fewer.push(word.last()) =~= word);
    }
}

} // verus!
