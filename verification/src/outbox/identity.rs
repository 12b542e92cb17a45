//! The stable identity that a surface's events carry across launches.
//!
//! One id per surface is minted once and persisted; the process that holds the
//! lock on its file claims it. A second live process of the same surface gets an
//! ephemeral id, so that two live sessions never share one.
use vstd::prelude::*;

use crate::text;

verus! {

/// A lower-case hexadecimal digit.
pub open spec fn is_hex(c: char) -> bool {
    '0' <= c <= '9' || 'a' <= c <= 'f'
}

/// Eight lower-case hexadecimal digits.
pub open spec fn is_tag(s: Seq<char>) -> bool {
    s.len() == 8 && forall|i: int| 0 <= i < 8 ==> is_hex(#[trigger] s[i])
}

/// A random identifier, by `uuid::Uuid::new_v4` and `to_string`: 36 characters,
/// the first eight of which are lower-case hexadecimal digits. Which ones is up
/// to chance.
#[verifier::external_body]
fn random_uuid() -> (uuid: String)
    ensures
        uuid@.len() == 36,
        is_tag(uuid@.take(8)),
{
    uuid::Uuid::new_v4().to_string()
}

/// The id of a surface that is persisted.
pub open spec fn stable(surface: Seq<char>, tag: Seq<char>) -> Seq<char> {
    surface + "_"@ + tag
}

/// The id of a surface that is good for one launch.
pub open spec fn ephemeral(surface: Seq<char>, tag: Seq<char>) -> Seq<char> {
    surface + "_ephemeral_"@ + tag
}

/// Whether an id is a stable one for a surface.
pub open spec fn is_stable(id: Seq<char>, surface: Seq<char>) -> bool {
    exists|tag: Seq<char>| #[trigger] is_tag(tag) && id == stable(surface, tag)
}

/// Whether an id is an ephemeral one for a surface.
pub open spec fn is_ephemeral(id: Seq<char>, surface: Seq<char>) -> bool {
    exists|tag: Seq<char>| #[trigger] is_tag(tag) && id == ephemeral(surface, tag)
}

/// The id made of a surface, a mark and the first eight characters of `uuid`.
pub fn tagged_id(surface: &str, mark: &str, uuid: &str) -> (id: String)
    requires
        uuid@.len() >= 8,
    ensures
        id@ == surface@ + mark@ + uuid@.take(8),
{
    let chars = text::to_chars(uuid);
    let tag = text::substring(&chars, 0, 8);
    assert(tag@ =~= uuid@.take(8));
    let mut id = surface.to_string();
    id.append(mark);
    id.append(tag.as_str());
    id
}

/// A new stable id for a surface.
pub fn stable_id(surface: &str) -> (id: String)
    ensures
        is_stable(id@, surface@),
        id@.len() == surface@.len() + 9,
        (surface@ + "_"@).is_prefix_of(id@),
        forall|i: int|
            surface@.len() < i < id@.len() ==> '0' <= #[trigger] id@[i] <= '9' || 'a' <= id@[i]
                <= 'f',
{
    let uuid = random_uuid();
    let id = tagged_id(surface, "_", uuid.as_str());
    assert(is_tag(uuid@.take(8)) && id@ == stable(surface@, uuid@.take(8)));
    proof {
        law_ids_end_with_eight_digits(surface@, id@);
    }
    id
}

/// A new ephemeral id for a surface.
pub fn ephemeral_id(surface: &str) -> (id: String)
    ensures
        is_ephemeral(id@, surface@),
        id@.len() == surface@.len() + 19,
        (surface@ + "_ephemeral_"@).is_prefix_of(id@),
        forall|i: int|
            surface@.len() + 11 <= i < id@.len() ==> '0' <= #[trigger] id@[i] <= '9' || 'a'
                <= id@[i] <= 'f',
{
    let uuid = random_uuid();
    let id = tagged_id(surface, "_ephemeral_", uuid.as_str());
    assert(is_tag(uuid@.take(8)) && id@ == ephemeral(surface@, uuid@.take(8)));
    proof {
        law_ids_end_with_eight_digits(surface@, id@);
    }
    id
}

/// The id in the text of an identity file, if there is any.
pub open spec fn persisted(contents: Seq<char>) -> Option<Seq<char>> {
    if text::trimmed(contents).len() == 0 {
        None
    } else {
        Some(text::trimmed(contents))
    }
}

/// The id in the text of an identity file. There is none in a file that could
/// not be read or is blank.
pub fn read_persisted_id(contents: &Option<String>) -> (id: Option<String>)
    ensures
        text::optional(id) == match *contents {
            Some(contents) => persisted(contents@),
            None => None,
        },
        contents is None || text::trimmed(contents->0@).len() == 0 ==> id is None,
        contents is Some && text::trimmed(contents->0@).len() > 0 ==> id is Some && id->0@
            == text::trimmed(contents->0@),
{
    match contents {
        Some(contents) => {
            let id = text::trim(contents.as_str());
            if id.as_str().is_empty() {
                None
            } else {
                Some(id)
            }
        },
        None => None,
    }
}

/// The text that an identity file gets: the id on a line of its own.
pub fn persist_id(id: &str) -> (contents: String)
    ensures
        contents@ == id@ + "\n"@,
{
    let mut contents = id.to_string();
    contents.append("\n");
    contents
}

/// The name of a surface's identity file.
pub fn identity_file_name(surface: &str) -> (name: String)
    ensures
        name@ == surface@ + ".identity"@,
{
    let mut name = surface.to_string();
    name.append(".identity");
    name
}

/// What the attempt to claim an identity file came to.
#[derive(Debug)]
pub enum ClaimAttempt {
    /// Its directory could not be created.
    NoDirectory,
    /// It could not be opened.
    NoFile,
    /// Another live process holds it.
    HeldElsewhere,
    /// This process holds it now; `contents` is what it says, if it could be
    /// read.
    Held { contents: Option<String> },
}

/// An identity that was acquired.
#[derive(Debug)]
pub struct Acquired {
    pub id: String,
    /// Whether it comes with the claim on the identity file.
    pub held: bool,
    /// What is to be written to the identity file, if anything.
    pub persist: Option<String>,
}

/// Whether an acquired identity is what an attempt to claim the file calls for:
/// an ephemeral id without the claim; with it, the persisted id, or a new stable
/// one to be persisted.
pub open spec fn acquired_from(
    surface: Seq<char>,
    attempt: ClaimAttempt,
    acquired: Acquired,
) -> bool {
    match attempt {
        ClaimAttempt::Held { contents } => {
            &&& acquired.held
            &&& if contents is Some && persisted(contents->0@) is Some {
                persisted(contents->0@) == Some(acquired.id@) && acquired.persist is None
            } else {
                is_stable(acquired.id@, surface) && text::optional(acquired.persist) == Some(
                    acquired.id@ + "\n"@,
                )
            }
        },
        _ => is_ephemeral(acquired.id@, surface) && !acquired.held && acquired.persist is None,
    }
}

/// The identity that an attempt to claim the identity file gives.
///
/// Whoever holds the claim decides what the file says, so that two first
/// launches cannot mint two stable ids.
pub fn acquire_from_path(surface: &str, attempt: &ClaimAttempt) -> (acquired: Acquired)
    ensures
        acquired_from(surface@, *attempt, acquired),
{
    match attempt {
        ClaimAttempt::Held { contents } => match read_persisted_id(contents) {
            Some(id) => Acquired { id, held: true, persist: None },
            None => {
                let id = stable_id(surface);
                let contents = persist_id(id.as_str());
                Acquired { id, held: true, persist: Some(contents) }
            },
        },
        _ => Acquired { id: ephemeral_id(surface), held: false, persist: None },
    }
}

/// The identities that this process has acquired, by the path of their file.
/// They are kept for the life of the process.
pub struct ClaimRegistry {
    pub claims: Vec<(String, String)>,
}

/// The id acquired for a path, if any.
pub open spec fn claimed(claims: Seq<(String, String)>, path: Seq<char>) -> Option<Seq<char>>
    decreases claims.len(),
{
    if claims.len() == 0 {
        None
    } else if claims[0].0@ == path {
        Some(claims[0].1@)
    } else {
        claimed(claims.skip(1), path)
    }
}

/// Whether looking for the id of a path among the claims `before` gave
/// `acquired` and left the claims `after`: an id claimed before is given again,
/// with nothing more to do; a new one is claimed, and no other claim changes.
pub open spec fn claims_as(
    before: Seq<(String, String)>,
    path: Seq<char>,
    acquired: Acquired,
    after: Seq<(String, String)>,
) -> bool {
    match claimed(before, path) {
        Some(id) => {
            &&& acquired.id@ == id
            &&& !acquired.held && acquired.persist is None
            &&& after == before
        },
        None => {
            &&& claimed(after, path) == Some(acquired.id@)
            &&& forall|other: Seq<char>|
                other != path ==> #[trigger] claimed(after, other) == claimed(before, other)
        },
    }
}

proof fn lemma_claimed_push(claims: Seq<(String, String)>, claim: (String, String), path: Seq<char>)
    ensures
        claimed(claims.push(claim), path) == if claimed(claims, path) is Some {
            claimed(claims, path)
        } else if claim.0@ == path {
            Some(claim.1@)
        } else {
            None
        },
    decreases claims.len(),
{
    if claims.len() == 0 {
        assert(claims.push(claim).skip(1) =~= Seq::empty());
        assert(claimed(claims.push(claim).skip(1), path) is None);
    } else {
        assert(claims.push(claim).skip(1) =~= claims.skip(1).push(claim));
        assert(claims.push(claim)[0] == claims[0]);
        lemma_claimed_push(claims.skip(1), claim, path);
    }
}

impl ClaimRegistry {
    /// A registry without claims.
    pub fn new() -> (registry: Self)
        ensures
            registry.claims@.len() == 0,
    {
        ClaimRegistry { claims: Vec::new() }
    }

    /// The id acquired for a path, if any.
    pub fn find(&self, path: &str) -> (id: Option<String>)
        ensures
            text::optional(id) == claimed(self.claims@, path@),
    {
        let mut i: usize = 0;
        assert(self.claims@.skip(0) =~= self.claims@);
        while i < self.claims.len()
            invariant
                i <= self.claims@.len(),
                claimed(self.claims@, path@) == claimed(self.claims@.skip(i as int), path@),
            decreases self.claims@.len() - i,
        {
            if text::same(self.claims[i].0.as_str(), path) {
                return Some(self.claims[i].1.clone());
            }
            assert(self.claims@.skip(i as int).skip(1) =~= self.claims@.skip(i + 1));
            i += 1;
        }
        None
    }

    /// Acquires the identity of a surface, whose file is at `path`. There is none
    /// without a path. The attempt to claim the file is made once per path: after
    /// that the same id is given again, with nothing more to do.
    pub fn acquire<F: Fn() -> ClaimAttempt>(
        &mut self,
        surface: &str,
        path: Option<String>,
        attempt: &F,
    ) -> (acquired: Option<Acquired>)
        requires
            attempt.requires(()),
        ensures
            match path {
                None => acquired is None && *final(self) == *old(self),
                Some(path) => {
                    &&& acquired is Some
                    &&& claims_as(
                        old(self).claims@,
                        path@,
                        acquired->0,
                        final(self).claims@,
                    )
                    &&& claimed(old(self).claims@, path@) is None ==> exists|
                        outcome: ClaimAttempt,
                    | #[trigger]
                        attempt.ensures((), outcome) && acquired_from(
                            surface@,
                            outcome,
                            acquired->0,
                        )
                },
            },
    {
        let path = path?;
        if let Some(id) = self.find(path.as_str()) {
            return Some(Acquired { id, held: false, persist: None });
        }
        let outcome = attempt();
        let acquired = acquire_from_path(surface, &outcome);
        let id = acquired.id.clone();
        proof {
            assert forall|other: Seq<char>| #[trigger]
                claimed(old(self).claims@.push((path, id)), other) == if claimed(
                    old(self).claims@,
                    other,
                ) is Some {
                    claimed(old(self).claims@, other)
                } else if path@ == other {
                    Some(id@)
                } else {
                    None
                } by {
                lemma_claimed_push(old(self).claims@, (path, id), other);
            }
        }
        self.claims.push((path, id));
        Some(acquired)
    }

    /// Forgets every claim, as the end of the process would.
    pub fn release_all_for_tests(&mut self)
        ensures
            final(self).claims@.len() == 0,
    {
        self.claims.clear();
    }
}

/// Whether the claims went through `states` as the paths of `acquired` were
/// acquired one after the other.
pub open spec fn acquires_in_turn(
    states: Seq<Seq<(String, String)>>,
    acquired: Seq<(Seq<char>, Acquired)>,
) -> bool {
    &&& states.len() == acquired.len() + 1
    &&& forall|i: int|
        0 <= i < acquired.len() ==> claims_as(
            states[i],
            (#[trigger] acquired[i]).0,
            acquired[i].1,
            states[i + 1],
        )
}

proof fn lemma_claim_stays(
    states: Seq<Seq<(String, String)>>,
    acquired: Seq<(Seq<char>, Acquired)>,
    path: Seq<char>,
)
    requires
        acquires_in_turn(states, acquired),
        claimed(states[0], path) is Some,
    ensures
        claimed(states.last(), path) == claimed(states[0], path),
    decreases acquired.len(),
{
    if acquired.len() > 0 {
        let n = acquired.len() - 1;
        assert(states.drop_last().last() == states[n]);
        assert(claims_as(states[n], acquired[n].0, acquired[n].1, states[n + 1]));
        assert forall|i: int| 0 <= i < n implies claims_as(
            states.drop_last()[i],
            (#[trigger] acquired.drop_last()[i]).0,
            acquired.drop_last()[i].1,
            states.drop_last()[i + 1],
        ) by {
            assert(acquired.drop_last()[i] == acquired[i]);
        }
        lemma_claim_stays(states.drop_last(), acquired.drop_last(), path);
    }
}

/// Within one process a path keeps its id: whatever is acquired after it, to
/// acquire it again gives the same id, with nothing more to do.
pub proof fn law_acquired_id_is_kept(
    before: Seq<(String, String)>,
    path: Seq<char>,
    first: Acquired,
    states: Seq<Seq<(String, String)>>,
    between: Seq<(Seq<char>, Acquired)>,
    second: Acquired,
    after: Seq<(String, String)>,
)
    requires
        acquires_in_turn(states, between),
        claims_as(before, path, first, states[0]),
        claims_as(states.last(), path, second, after),
    ensures
        second.id@ == first.id@,
        !second.held,
        second.persist is None,
        after == states.last(),
{
    lemma_claim_stays(states, between, path);
}

proof fn lemma_trim_end_stops(s: Seq<char>)
    requires
        s.len() == 0 || !text::is_white(s.last()),
    ensures
        text::trim_end(s) == s,
        text::trim_end(s + "\n"@) == s,
{
    reveal_strlit("\n");
    let longer = s + "\n"@;
    assert(text::trim_end(s) == s);
    assert(longer.drop_last() =~= s);
    assert(text::is_white(longer.last()));
    assert(text::trim_end(longer) == text::trim_end(longer.drop_last()));
}

/// A stable id that was persisted is what the next launch reads back.
pub proof fn law_stable_id_survives_a_restart(surface: Seq<char>, id: Seq<char>)
    requires
        is_stable(id, surface),
        surface.len() == 0 || !text::is_white(surface[0]),
    ensures
        persisted(id + "\n"@) == Some(id),
{
    let tag = choose|tag: Seq<char>| #[trigger] is_tag(tag) && id == stable(surface, tag);
    reveal_strlit("_");
    reveal_strlit("\n");
    assert(id.last() == tag[7]);
    assert(is_hex(tag[7]));
    let contents = id + "\n"@;
    if surface.len() > 0 {
        assert(contents[0] == surface[0]);
    } else {
        assert(contents[0] == '_');
    }
    assert(text::trim_start(contents) == contents);
    lemma_trim_end_stops(id);
}

/// The launch after one that persisted its id gets the same id, with the claim
/// and nothing more to persist.
pub proof fn law_next_launch_reuses_the_id(
    surface: Seq<char>,
    before: Option<String>,
    first: Acquired,
    contents: String,
    second: Acquired,
)
    requires
        surface.len() == 0 || !text::is_white(surface[0]),
        acquired_from(surface, ClaimAttempt::Held { contents: before }, first),
        first.persist is Some,
        contents@ == first.persist->0@,
        acquired_from(surface, ClaimAttempt::Held { contents: Some(contents) }, second),
    ensures
        second.id@ == first.id@,
        second.held,
        second.persist is None,
{
    law_stable_id_survives_a_restart(surface, first.id@);
}

/// An ephemeral id is never the stable id of the same surface.
pub proof fn law_ephemeral_ids_are_not_stable(surface: Seq<char>, id: Seq<char>)
    requires
        is_ephemeral(id, surface),
    ensures
        !is_stable(id, surface),
{
    reveal_strlit("_");
    reveal_strlit("_ephemeral_");
    let tag = choose|tag: Seq<char>| #[trigger] is_tag(tag) && id == ephemeral(surface, tag);
    if is_stable(id, surface) {
        let other = choose|other: Seq<char>| #[trigger] is_tag(other) && id == stable(
            surface,
            other,
        );
        assert(id.len() == surface.len() + 9);
        assert(id.len() == surface.len() + 19);
    }
}

/// A stable id is its surface, an underscore and eight lower-case hexadecimal
/// digits; an ephemeral one has the word between underscores.
pub proof fn law_ids_end_with_eight_digits(surface: Seq<char>, id: Seq<char>)
    ensures
        is_stable(id, surface) ==> {
            &&& id.len() == surface.len() + 9
            &&& (surface + "_"@).is_prefix_of(id)
            &&& forall|i: int|
                surface.len() < i < id.len() ==> '0' <= #[trigger] id[i] <= '9' || 'a' <= id[i]
                    <= 'f'
        },
        is_ephemeral(id, surface) ==> {
            &&& id.len() == surface.len() + 19
            &&& (surface + "_ephemeral_"@).is_prefix_of(id)
            &&& forall|i: int|
                surface.len() + 11 <= i < id.len() ==> '0' <= #[trigger] id[i] <= '9' || 'a'
                    <= id[i] <= 'f'
        },
{
    reveal_strlit("_");
    reveal_strlit("_ephemeral_");
    if is_stable(id, surface) {
        let tag = choose|tag: Seq<char>| #[trigger] is_tag(tag) && id == stable(surface, tag);
        assert((surface + "_"@).is_prefix_of(id));
        assert forall|i: int| surface.len() < i < id.len() implies '0' <= #[trigger] id[i] <= '9'
            || 'a' <= id[i] <= 'f' by {
            assert(id[i] == tag[i - surface.len() - 1]);
            assert(is_hex(tag[i - surface.len() - 1]));
        }
    }
    if is_ephemeral(id, surface) {
        let tag = choose|tag: Seq<char>| #[trigger] is_tag(tag) && id == ephemeral(surface, tag);
        assert((surface + "_ephemeral_"@).is_prefix_of(id));
        assert forall|i: int| surface.len() + 11 <= i < id.len() implies '0' <= #[trigger] id[i]
            <= '9' || 'a' <= id[i] <= 'f' by {
            assert(id[i] == tag[i - surface.len() - 11]);
            assert(is_hex(tag[i - surface.len() - 11]));
        }
    }
}

/// Only who holds the identity file has a stable identity: the one in the file,
/// without its outer white space, or a new one, which is then written to it with a
/// line feed. Everyone else has an ephemeral one and writes nothing.
pub proof fn law_only_the_holder_is_stable(
    surface: Seq<char>,
    attempt: ClaimAttempt,
    acquired: Acquired,
)
    requires
        acquired_from(surface, attempt, acquired),
    ensures
        acquired.held <==> attempt is Held,
        !(attempt is Held) ==> acquired.persist is None && acquired.id@.len() == surface.len() + 19
            && (surface + "_ephemeral_"@).is_prefix_of(acquired.id@),
        attempt matches ClaimAttempt::Held { contents } ==> {
            let known = contents is Some && text::trimmed(contents->0@).len() > 0;
            &&& known ==> acquired.id@ == text::trimmed(contents->0@) && acquired.persist is None
            &&& !known ==> acquired.id@.len() == surface.len() + 9 && (surface
                + "_"@).is_prefix_of(acquired.id@) && acquired.persist is Some
                && acquired.persist->0@ == acquired.id@ + "\n"@
        },
{
    law_ids_end_with_eight_digits(surface, acquired.id@);
}

/// The id of a path is that of the first claim for it, and there is none where no
/// claim is for it.
pub proof fn law_first_claim_counts(claims: Seq<(String, String)>, path: Seq<char>)
    ensures
        claimed(claims, path) is None <==> forall|i: int|
            0 <= i < claims.len() ==> (#[trigger] claims[i]).0@ != path,
        claimed(claims, path) is Some ==> exists|k: int|
            {
                &&& 0 <= k < claims.len()
                &&& (#[trigger] claims[k]).0@ == path
                &&& claimed(claims, path)->0 == claims[k].1@
                &&& forall|i: int| 0 <= i < k ==> (#[trigger] claims[i]).0@ != path
            },
    decreases claims.len(),
{
    if claims.len() > 0 && claims[0].0@ != path {
        let rest = claims.skip(1);
        law_first_claim_counts(rest, path);
        if claimed(rest, path) is Some {
            let k = choose|k: int|
                {
                    &&& 0 <= k < rest.len()
                    &&& (#[trigger] rest[k]).0@ == path
                    &&& claimed(rest, path)->0 == rest[k].1@
                    &&& forall|i: int| 0 <= i < k ==> (#[trigger] rest[i]).0@ != path
                };
            assert(claims[k + 1] == rest[k]);
            assert forall|i: int| 0 <= i < k + 1 implies (#[trigger] claims[i]).0@ != path by {
                if i > 0 {
                    assert(rest[i - 1] == claims[i]);
                }
            }
        } else {
            assert forall|i: int| 0 <= i < claims.len() implies (#[trigger] claims[i]).0@
                != path by {
                if i > 0 {
                    assert(rest[i - 1] == claims[i]);
                }
            }
        }
    } else if claims.len() > 0 {
        assert(claims[0].0@ == path);
    }
}

/// A path that is claimed keeps its id, and every other path keeps its own or has
/// none, as before. What was claimed before is given again.
pub proof fn law_claims_are_kept_apart(
    before: Seq<(String, String)>,
    path: Seq<char>,
    acquired: Acquired,
    after: Seq<(String, String)>,
    other: Seq<char>,
)
    requires
        claims_as(before, path, acquired, after),
    ensures
        claimed(after, path) == Some(acquired.id@),
        other != path ==> claimed(after, other) == claimed(before, other),
        claimed(before, path) is Some ==> claimed(before, path) == Some(acquired.id@) && after
            == before && !acquired.held && acquired.persist is None,
        exists|k: int| 0 <= k < after.len() && (#[trigger] after[k]).0@ == path && after[k].1@
            == acquired.id@,
{
    law_first_claim_counts(after, path);
}

} // verus!
