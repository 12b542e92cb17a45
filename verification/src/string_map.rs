//! A small map with string keys, kept as a list without repeated keys.
use vstd::prelude::*;

use crate::text;

verus! {

/// A map from strings to values.
pub struct StringMap<T> {
    entries: Vec<(String, T)>,
}

/// Whether no key stands twice in a list of entries.
pub open spec fn keys_distinct<T>(entries: Seq<(String, T)>) -> bool {
    forall|i: int, j: int|
        0 <= i < j < entries.len() ==> (#[trigger] entries[i]).0@ != (#[trigger] entries[j]).0@
}

/// The map that a list of entries stands for.
pub open spec fn map_of<T>(entries: Seq<(String, T)>) -> Map<Seq<char>, T>
    decreases entries.len(),
{
    if entries.len() == 0 {
        Map::empty()
    } else {
        map_of(entries.drop_last()).insert(entries.last().0@, entries.last().1)
    }
}

proof fn lemma_map_of<T>(entries: Seq<(String, T)>)
    requires
        keys_distinct(entries),
    ensures
        forall|i: int|
            0 <= i < entries.len() ==> map_of(entries).contains_pair(
                (#[trigger] entries[i]).0@,
                entries[i].1,
            ),
        forall|key: Seq<char>| #[trigger]
            map_of(entries).contains_key(key) ==> exists|i: int|
                0 <= i < entries.len() && (#[trigger] entries[i]).0@ == key,
    decreases entries.len(),
{
    if entries.len() > 0 {
        let fewer = entries.drop_last();
        assert forall|i: int, j: int| 0 <= i < j < fewer.len() implies (#[trigger] fewer[i]).0@ != (
        #[trigger] fewer[j]).0@ by {
            assert(fewer[i] == entries[i] && fewer[j] == entries[j]);
        }
        lemma_map_of(fewer);
        let last = entries.len() - 1;
        assert forall|i: int| 0 <= i < entries.len() implies map_of(entries).contains_pair(
            (#[trigger] entries[i]).0@,
            entries[i].1,
        ) by {
            if i < last {
                assert(fewer[i] == entries[i]);
                assert(entries[i].0@ != entries[last].0@);
            }
        }
        assert forall|key: Seq<char>| #[trigger] map_of(entries).contains_key(key) implies exists|
            i: int,
        | 0 <= i < entries.len() && (#[trigger] entries[i]).0@ == key by {
            if key == entries[last].0@ {
            } else {
                assert(map_of(fewer).contains_key(key));
                let i = choose|i: int| 0 <= i < fewer.len() && (#[trigger] fewer[i]).0@ == key;
                assert(entries[i] == fewer[i]);
            }
        }
    }
}

/// Taking out an entry takes out its key.
proof fn lemma_map_of_remove<T>(entries: Seq<(String, T)>, at: int)
    requires
        keys_distinct(entries),
        0 <= at < entries.len(),
    ensures
        keys_distinct(entries.remove(at)),
        map_of(entries.remove(at)) == map_of(entries).remove(entries[at].0@),
        map_of(entries)[entries[at].0@] == entries[at].1,
        map_of(entries).contains_key(entries[at].0@),
{
    let fewer = entries.remove(at);
    assert forall|i: int, j: int| 0 <= i < j < fewer.len() implies (#[trigger] fewer[i]).0@ != (
    #[trigger] fewer[j]).0@ by {
        let a = if i < at { i } else { i + 1 };
        let b = if j < at { j } else { j + 1 };
        assert(fewer[i] == entries[a] && fewer[j] == entries[b]);
    }
    lemma_map_of(entries);
    lemma_map_of(fewer);
    assert(map_of(fewer) =~= map_of(entries).remove(entries[at].0@)) by {
        assert forall|key: Seq<char>| #[trigger] map_of(fewer).contains_key(key) implies map_of(
            entries,
        ).remove(entries[at].0@).contains_pair(key, map_of(fewer)[key]) by {
            let i = choose|i: int| 0 <= i < fewer.len() && (#[trigger] fewer[i]).0@ == key;
            let a = if i < at { i } else { i + 1 };
            assert(fewer[i] == entries[a]);
            if a < at {
                assert(entries[a].0@ != entries[at].0@);
            } else {
                assert(entries[at].0@ != entries[a].0@);
            }
        }
        assert forall|key: Seq<char>| #[trigger]
            map_of(entries).remove(entries[at].0@).contains_key(key) implies map_of(
            fewer,
        ).contains_key(key) by {
            assert(map_of(entries).contains_key(key));
            let a = choose|i: int| 0 <= i < entries.len() && (#[trigger] entries[i]).0@ == key;
            let i = if a < at { a } else { a - 1 };
            assert(fewer[i] == entries[a]);
        }
    }
}

impl<T> StringMap<T> {
    #[verifier::type_invariant]
    spec fn distinct(self) -> bool {
        keys_distinct(self.entries@)
    }

    /// The entries, in some order.
    pub closed spec fn entries(&self) -> Seq<(String, T)> {
        self.entries@
    }

    /// The map without entries.
    pub fn new() -> (map: Self)
        ensures
            map@ == Map::<Seq<char>, T>::empty(),
    {
        StringMap { entries: Vec::new() }
    }

    /// The index of a key.
    fn find(entries: &Vec<(String, T)>, key: &str) -> (found: Option<usize>)
        ensures
            match found {
                Some(i) => i < entries@.len() && entries@[i as int].0@ == key@,
                None => forall|i: int|
                    0 <= i < entries@.len() ==> (#[trigger] entries@[i]).0@ != key@,
            },
    {
        let mut i: usize = 0;
        while i < entries.len()
            invariant
                i <= entries@.len(),
                forall|j: int| 0 <= j < i ==> (#[trigger] entries@[j]).0@ != key@,
            decreases entries@.len() - i,
        {
            if text::same(entries[i].0.as_str(), key) {
                return Some(i);
            }
            i += 1;
        }
        None
    }

    /// The value stored under `key`.
    pub fn get(&self, key: &str) -> (value: Option<&T>)
        ensures
            match value {
                Some(v) => self@.contains_pair(key@, *v),
                None => !self@.contains_key(key@),
            },
    {
        proof {
            use_type_invariant(self);
            lemma_map_of(self.entries@);
        }
        match Self::find(&self.entries, key) {
            Some(i) => Some(&self.entries[i].1),
            None => None,
        }
    }

    /// Takes out the value stored under `key`.
    pub fn remove(&mut self, key: &str) -> (value: Option<T>)
        ensures
            final(self)@ == old(self)@.remove(key@),
            match value {
                Some(v) => old(self)@.contains_pair(key@, v),
                None => !old(self)@.contains_key(key@),
            },
    {
        proof {
            use_type_invariant(&*self);
            lemma_map_of(self.entries@);
        }
        let mut entries: Vec<(String, T)> = Vec::new();
        std::mem::swap(&mut entries, &mut self.entries);
        let value = match Self::find(&entries, key) {
            Some(i) => {
                proof {
                    lemma_map_of_remove(entries@, i as int);
                }
                let (_, value) = entries.remove(i);
                Some(value)
            },
            None => {
                assert(map_of(entries@).remove(key@) =~= map_of(entries@));
                None
            },
        };
        self.entries = entries;
        value
    }

    /// Stores `value` under `key`, in place of what was there.
    pub fn insert(&mut self, key: String, value: T)
        ensures
            final(self)@ == old(self)@.insert(key@, value),
    {
        let ghost before = self@;
        self.remove(key.as_str());
        proof {
            use_type_invariant(&*self);
            lemma_map_of(self.entries@);
        }
        let mut entries: Vec<(String, T)> = Vec::new();
        std::mem::swap(&mut entries, &mut self.entries);
        proof {
            let more = entries@.push((key, value));
            assert forall|i: int, j: int| 0 <= i < j < more.len() implies (#[trigger] more[i]).0@ != (
            #[trigger] more[j]).0@ by {
                if j == entries@.len() {
                    assert(more[i] == entries@[i]);
                    assert(map_of(entries@).contains_key(entries@[i].0@));
                } else {
                    assert(more[i] == entries@[i] && more[j] == entries@[j]);
                }
            }
            assert(more.drop_last() =~= entries@);
            assert(before.remove(key@).insert(key@, value) =~= before.insert(key@, value));
        }
        entries.push((key, value));
        self.entries = entries;
    }

    /// Takes out some entry, as long as there is one.
    pub fn pop(&mut self) -> (entry: Option<(String, T)>)
        ensures
            match entry {
                Some((key, value)) => {
                    &&& old(self)@.contains_pair(key@, value)
                    &&& final(self)@ == old(self)@.remove(key@)
                    &&& old(self).entries().len() == final(self).entries().len() + 1
                },
                None => {
                    &&& old(self)@ == Map::<Seq<char>, T>::empty()
                    &&& final(self)@ == old(self)@
                    &&& final(self).entries() == old(self).entries()
                },
            },
    {
        proof {
            use_type_invariant(&*self);
        }
        let mut entries: Vec<(String, T)> = Vec::new();
        std::mem::swap(&mut entries, &mut self.entries);
        proof {
            if entries@.len() > 0 {
                lemma_map_of_remove(entries@, entries@.len() - 1);
                assert(entries@.remove(entries@.len() - 1) =~= entries@.drop_last());
            }
        }
        let entry = entries.pop();
        self.entries = entries;
        entry
    }

    /// The keys, each one once.
    pub fn keys(&self) -> (keys: Vec<String>)
        ensures
            forall|key: Seq<char>| #[trigger]
                self@.contains_key(key) <==> text::texts(keys@).contains(key),
            text::texts(keys@).no_duplicates(),
    {
        proof {
            use_type_invariant(self);
            lemma_map_of(self.entries@);
        }
        let mut keys: Vec<String> = Vec::new();
        let mut i: usize = 0;
        while i < self.entries.len()
            invariant
                i <= self.entries@.len(),
                keys@.len() == i,
                forall|j: int| 0 <= j < i ==> (#[trigger] keys@[j])@ == self.entries@[j].0@,
            decreases self.entries@.len() - i,
        {
            keys.push(self.entries[i].0.clone());
            i += 1;
        }
        proof {
            let names = text::texts(keys@);
            assert forall|key: Seq<char>| #[trigger]
                self@.contains_key(key) <==> names.contains(key) by {
                if self@.contains_key(key) {
                    let j = choose|j: int|
                        0 <= j < self.entries@.len() && (#[trigger] self.entries@[j]).0@ == key;
                    assert(names[j] == keys@[j]@);
                }
                if names.contains(key) {
                    let j = choose|j: int| 0 <= j < names.len() && names[j] == key;
                    assert(keys@[j]@ == key);
                    assert(self@.contains_pair(self.entries@[j].0@, self.entries@[j].1));
                }
            }
            assert forall|a: int, b: int| 0 <= a < names.len() && 0 <= b < names.len() && a != b
                implies names[a] != names[b] by {
                assert(keys@[a]@ == self.entries@[a].0@ && keys@[b]@ == self.entries@[b].0@);
                if a < b {
                    assert(self.entries@[a].0@ != self.entries@[b].0@);
                } else {
                    assert(self.entries@[b].0@ != self.entries@[a].0@);
                }
            }
        }
        keys
    }
}

impl<T> View for StringMap<T> {
    type V = Map<Seq<char>, T>;

    closed spec fn view(&self) -> Map<Seq<char>, T> {
        map_of(self.entries@)
    }
}

} // verus!
