//! Sorting names in the order of their characters.
use vstd::prelude::*;

use crate::text;

verus! {

/// Whether `a` stands before `b` or equals it, by the first difference.
pub open spec fn lex_le(a: Seq<char>, b: Seq<char>) -> bool
    decreases a.len(),
{
    if a.len() == 0 {
        true
    } else if b.len() == 0 {
        false
    } else if a[0] != b[0] {
        a[0] < b[0]
    } else {
        lex_le(a.skip(1), b.skip(1))
    }
}

/// Whether texts stand in order.
pub open spec fn in_order(parts: Seq<Seq<char>>) -> bool {
    forall|i: int, j: int|
        0 <= i < j < parts.len() ==> lex_le(#[trigger] parts[i], #[trigger] parts[j])
}

proof fn lemma_lex_total(a: Seq<char>, b: Seq<char>)
    ensures
        lex_le(a, b) || lex_le(b, a),
    decreases a.len(),
{
    if a.len() > 0 && b.len() > 0 && a[0] == b[0] {
        lemma_lex_total(a.skip(1), b.skip(1));
    }
}

proof fn lemma_lex_transitive(a: Seq<char>, b: Seq<char>, c: Seq<char>)
    requires
        lex_le(a, b),
        lex_le(b, c),
    ensures
        lex_le(a, c),
    decreases a.len(),
{
    if a.len() > 0 && b.len() > 0 && c.len() > 0 && a[0] == b[0] && b[0] == c[0] {
        lemma_lex_transitive(a.skip(1), b.skip(1), c.skip(1));
    }
}

/// Whether `a` stands before `b` or equals it.
fn stands_before(a: &str, b: &str) -> (before: bool)
    ensures
        before == lex_le(a@, b@),
{
    let x = text::to_chars(a);
    let y = text::to_chars(b);
    let mut i: usize = 0;
    assert(x@.skip(0) =~= x@ && y@.skip(0) =~= y@);
    while i < x.len() && i < y.len()
        invariant
            x@ == a@,
            y@ == b@,
            i <= x@.len(),
            i <= y@.len(),
            lex_le(x@, y@) == lex_le(x@.skip(i as int), y@.skip(i as int)),
        decreases x@.len() - i,
    {
        let c = x[i];
        let d = y[i];
        assert(x@.skip(i as int)[0] == c && y@.skip(i as int)[0] == d);
        if c != d {
            return c < d;
        }
        assert(x@.skip(i as int).skip(1) =~= x@.skip(i + 1));
        assert(y@.skip(i as int).skip(1) =~= y@.skip(i + 1));
        i += 1;
    }
    i == x.len()
}

/// Puts a name into its place in a list in order.
fn insert_in_order(names: &mut Vec<String>, name: String)
    requires
        in_order(text::texts(old(names)@)),
    ensures
        in_order(text::texts(final(names)@)),
        text::texts(final(names)@).to_multiset() == text::texts(old(names)@).to_multiset().insert(
            name@,
        ),
{
    let ghost parts = text::texts(names@);
    let mut at: usize = 0;
    while at < names.len() && stands_before(names[at].as_str(), name.as_str())
        invariant
            at <= names@.len(),
            parts == text::texts(names@),
            forall|i: int| 0 <= i < at ==> lex_le(#[trigger] parts[i], name@),
        decreases names@.len() - at,
    {
        at += 1;
    }
    proof {
        let longer = parts.insert(at as int, name@);
        assert(text::texts(names@.insert(at as int, name)) =~= longer);
        assert forall|i: int, j: int| 0 <= i < j < longer.len() implies lex_le(
            #[trigger] longer[i],
            #[trigger] longer[j],
        ) by {
            let a = if i < at { i } else { i - 1 };
            let b = if j < at { j } else { j - 1 };
            if j == at {
                assert(longer[i] == parts[i]);
            } else if i == at {
                lemma_lex_total(parts[at as int], name@);
                assert(longer[j] == parts[j - 1]);
                if j - 1 > at {
                    assert(lex_le(parts[at as int], parts[j - 1]));
                    lemma_lex_transitive(name@, parts[at as int], parts[j - 1]);
                }
            } else {
                assert(longer[i] == parts[a] && longer[j] == parts[b]);
                assert(lex_le(parts[a], parts[b]));
            }
        }
        vstd::seq_lib::to_multiset_remove(longer, at as int);
        assert(longer.remove(at as int) =~= parts);
        assert(longer[at as int] == name@);
        longer.to_multiset_ensures();
        assert(longer.contains(name@));
        assert(longer.to_multiset() =~= parts.to_multiset().insert(name@));
    }
    names.insert(at, name);
}

/// The same names, in order.
pub fn sort_names(names: Vec<String>) -> (sorted: Vec<String>)
    ensures
        in_order(text::texts(sorted@)),
        text::texts(sorted@).to_multiset() == text::texts(names@).to_multiset(),
{
    let mut sorted: Vec<String> = Vec::new();
    let mut i: usize = 0;
    assert(text::texts(names@.take(0)) =~= Seq::<Seq<char>>::empty());
    assert(text::texts(sorted@) =~= Seq::<Seq<char>>::empty());
    while i < names.len()
        invariant
            i <= names@.len(),
            in_order(text::texts(sorted@)),
            text::texts(sorted@).to_multiset() == text::texts(names@.take(i as int)).to_multiset(),
        decreases names@.len() - i,
    {
        proof {
            let before = text::texts(names@.take(i as int));
            assert(text::texts(names@.take(i + 1)) =~= before.push(names@[i as int]@));
            vstd::seq_lib::to_multiset_build(before, names@[i as int]@);
        }
        insert_in_order(&mut sorted, names[i].clone());
        i += 1;
    }
    assert(names@.take(i as int) =~= names@);
    sorted
}

/// Names are ordered by the first character in which they differ, and one that
/// goes on where the other ends comes later. The order is total, and two names
/// before each other are the same.
pub proof fn law_order_is_by_first_difference(
    start: Seq<char>,
    a: Seq<char>,
    b: Seq<char>,
)
    ensures
        a.len() == 0 ==> lex_le(start + a, start + b),
        a.len() > 0 && b.len() == 0 ==> !lex_le(start + a, start + b),
        a.len() > 0 && b.len() > 0 && a[0] != b[0] ==> (lex_le(start + a, start + b) <==> a[0]
            < b[0]),
        lex_le(a, b) || lex_le(b, a),
        lex_le(a, b) && lex_le(b, a) ==> a == b,
    decreases start.len(),
{
    lemma_lex_total(a, b);
    lemma_lex_antisymmetric(a, b);
    if start.len() == 0 {
        assert(start + a =~= a && start + b =~= b);
    } else {
        law_order_is_by_first_difference(start.skip(1), a, b);
        assert((start + a).skip(1) =~= start.skip(1) + a);
        assert((start + b).skip(1) =~= start.skip(1) + b);
    }
}

proof fn lemma_lex_antisymmetric(a: Seq<char>, b: Seq<char>)
    ensures
        lex_le(a, b) && lex_le(b, a) ==> a == b,
    decreases a.len(),
{
    if lex_le(a, b) && lex_le(b, a) {
        if a.len() == 0 {
            assert(a =~= b);
        } else {
            lemma_lex_antisymmetric(a.skip(1), b.skip(1));
            assert(a =~= seq![a[0]] + a.skip(1));
            assert(b =~= seq![b[0]] + b.skip(1));
        }
    }
}

} // verus!
