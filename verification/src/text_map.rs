//! A map from texts to values that keeps the order in which keys were added.
use vstd::prelude::*;

use crate::text;

verus! {

/// A map from texts to values. No key occurs twice.
pub struct TextMap<V> {
    entries: Vec<(String, V)>,
}

/// The place of `key` among `entries`.
spec fn place<V>(entries: Seq<(String, V)>, key: Seq<char>) -> Option<int>
    decreases entries.len(),
{
    if entries.len() == 0 {
        None
    } else if entries.last().0@ == key {
        Some(entries.len() - 1)
    } else {
        place(entries.drop_last(), key)
    }
}

proof fn lemma_place<V>(entries: Seq<(String, V)>, key: Seq<char>)
    ensures
        match place(entries, key) {
            Some(i) => 0 <= i < entries.len() && entries[i].0@ == key,
            None => forall|i: int| 0 <= i < entries.len() ==> (#[trigger] entries[i]).0@ != key,
        },
    decreases entries.len(),
{
    if entries.len() > 0 && entries.last().0@ != key {
        lemma_place(entries.drop_last(), key);
        assert forall|i: int|
            place(entries, key) is None && 0 <= i < entries.len() implies (
        #[trigger] entries[i]).0@ != key by {
            if i < entries.len() - 1 {
                assert(entries.drop_last()[i] == entries[i]);
            }
        }
    }
}

spec fn distinct<V>(entries: Seq<(String, V)>) -> bool {
    forall|i: int, j: int|
        0 <= i < j < entries.len() ==> (#[trigger] entries[i]).0@ != (#[trigger] entries[j]).0@
}

spec fn map_of<V>(entries: Seq<(String, V)>) -> Map<Seq<char>, V> {
    Map::new(
        |k: Seq<char>| place(entries, k) is Some,
        |k: Seq<char>| entries[place(entries, k)->0].1,
    )
}

/// With no key twice, an entry is what the map gives for its key.
proof fn lemma_entry<V>(entries: Seq<(String, V)>, i: int)
    requires
        distinct(entries),
        0 <= i < entries.len(),
    ensures
        place(entries, entries[i].0@) == Some(i),
        map_of(entries).contains_key(entries[i].0@),
        map_of(entries)[entries[i].0@] == entries[i].1,
{
    lemma_place(entries, entries[i].0@);
    let j = place(entries, entries[i].0@);
    if j is None {
        assert(entries[i].0@ != entries[i].0@);
    }
}

proof fn lemma_added<V>(entries: Seq<(String, V)>, key: String, value: V)
    requires
        distinct(entries),
        place(entries, key@) is None,
    ensures
        distinct(entries.push((key, value))),
        map_of(entries.push((key, value))) == map_of(entries).insert(key@, value),
{
    let more = entries.push((key, value));
    lemma_place(entries, key@);
    assert forall|i: int, j: int| 0 <= i < j < more.len() implies (#[trigger] more[i]).0@ != (
    #[trigger] more[j]).0@ by {
        assert(more[i] == entries[i]);
        if j < entries.len() {
            assert(more[j] == entries[j]);
        }
    }
    assert forall|k: Seq<char>| #[trigger] place(more, k) == (if k == key@ {
        Some(entries.len() as int)
    } else {
        place(entries, k)
    }) by {
        assert(more.drop_last() =~= entries);
    }
    assert forall|k: Seq<char>| k != key@ && #[trigger] place(entries, k) is Some implies more[place(
        entries,
        k,
    )->0] == entries[place(entries, k)->0] by {
        lemma_place(entries, k);
    }
    assert(map_of(more) =~= map_of(entries).insert(key@, value));
}

proof fn lemma_replaced<V>(entries: Seq<(String, V)>, i: int, key: String, value: V)
    requires
        distinct(entries),
        0 <= i < entries.len(),
        entries[i].0@ == key@,
    ensures
        distinct(entries.update(i, (key, value))),
        map_of(entries.update(i, (key, value))) == map_of(entries).insert(key@, value),
{
    let other = entries.update(i, (key, value));
    assert forall|a: int, b: int| 0 <= a < b < other.len() implies (#[trigger] other[a]).0@ != (
    #[trigger] other[b]).0@ by {
        assert(entries[a].0@ != entries[b].0@);
    }
    assert forall|k: Seq<char>| #[trigger] place(other, k) == place(entries, k) by {
        lemma_place(other, k);
        lemma_place(entries, k);
        if let Some(a) = place(other, k) {
            assert(entries[a].0@ == k);
            lemma_entry(entries, a);
        } else if let Some(b) = place(entries, k) {
            assert(other[b].0@ == k);
        }
    }
    lemma_entry(entries, i);
    assert forall|k: Seq<char>| k != key@ && #[trigger] place(entries, k) is Some implies other[place(
        entries,
        k,
    )->0] == entries[place(entries, k)->0] by {
        lemma_place(entries, k);
    }
    assert(map_of(other) =~= map_of(entries).insert(key@, value));
}

proof fn lemma_removed<V>(entries: Seq<(String, V)>, i: int)
    requires
        distinct(entries),
        0 <= i < entries.len(),
    ensures
        distinct(entries.remove(i)),
        map_of(entries.remove(i)) == map_of(entries).remove(entries[i].0@),
{
    let fewer = entries.remove(i);
    let key = entries[i].0@;
    assert forall|a: int, b: int| 0 <= a < b < fewer.len() implies (#[trigger] fewer[a]).0@ != (
    #[trigger] fewer[b]).0@ by {
        let a0 = if a < i { a } else { a + 1 };
        let b0 = if b < i { b } else { b + 1 };
        assert(fewer[a] == entries[a0]);
        assert(fewer[b] == entries[b0]);
    }
    lemma_entry(entries, i);
    assert forall|k: Seq<char>| #[trigger]
        map_of(fewer).contains_key(k) == map_of(entries).remove(key).contains_key(k) by {
        lemma_place(fewer, k);
        lemma_place(entries, k);
        if let Some(a) = place(fewer, k) {
            let a0 = if a < i { a } else { a + 1 };
            assert(fewer[a] == entries[a0]);
            assert(entries[a0].0@ == k);
            assert(place(entries, k) is Some);
            assert(a0 != i);
            if k == key {
                lemma_entry(entries, a0);
            }
        } else if let Some(b) = place(entries, k) {
            if b < i {
                assert(fewer[b] == entries[b]);
            } else if b > i {
                assert(fewer[b - 1] == entries[b]);
            }
        }
    }
    assert forall|k: Seq<char>| #[trigger] map_of(fewer).contains_key(k) implies map_of(fewer)[k]
        == map_of(entries).remove(key)[k] by {
        lemma_place(fewer, k);
        let a = place(fewer, k)->0;
        let a0 = if a < i { a } else { a + 1 };
        assert(fewer[a] == entries[a0]);
        lemma_entry(entries, a0);
        lemma_entry(fewer, a);
    }
    assert(map_of(fewer) =~= map_of(entries).remove(key));
}

impl<V> View for TextMap<V> {
    type V = Map<Seq<char>, V>;

    closed spec fn view(&self) -> Map<Seq<char>, V> {
        map_of(self.entries@)
    }
}

impl<V> TextMap<V> {
    #[verifier::type_invariant]
    spec fn no_key_twice(self) -> bool {
        distinct(self.entries@)
    }

    /// The entries in the order in which their keys were added.
    pub closed spec fn listed(self) -> Seq<(String, V)> {
        self.entries@
    }

    /// A map without entries.
    pub fn new() -> (r: Self)
        ensures
            r@ == Map::<Seq<char>, V>::empty(),
            r.listed().len() == 0,
    {
        let r = TextMap { entries: Vec::new() };
        assert(r@ =~= Map::<Seq<char>, V>::empty());
        r
    }

    fn find(&self, key: &str) -> (r: Option<usize>)
        ensures
            match r {
                Some(i) => i < self.entries@.len() && self.entries@[i as int].0@ == key@,
                None => place(self.entries@, key@) is None,
            },
            self@.contains_key(key@) == (r is Some),
            r matches Some(i) ==> self@[key@] == self.entries@[i as int].1,
    {
        proof {
            use_type_invariant(self);
            lemma_place(self.entries@, key@);
        }
        let n: usize = self.entries.len();
        let mut i: usize = 0;
        while i < n
            invariant
                n == self.entries@.len(),
                distinct(self.entries@),
                i <= n,
                forall|k: int| 0 <= k < i ==> (#[trigger] self.entries@[k]).0@ != key@,
            decreases n - i,
        {
            if text::same(self.entries[i].0.as_str(), key) {
                proof {
                    lemma_entry(self.entries@, i as int);
                }
                return Some(i);
            }
            i = i + 1;
        }
        None
    }

    /// Whether the key has a value.
    pub fn contains_key(&self, key: &str) -> (r: bool)
        ensures
            r == self@.contains_key(key@),
    {
        self.find(key).is_some()
    }

    /// The value of a key.
    pub fn get(&self, key: &str) -> (r: Option<&V>)
        ensures
            match r {
                Some(v) => self@.contains_key(key@) && *v == self@[key@],
                None => !self@.contains_key(key@),
            },
    {
        match self.find(key) {
            Some(i) => Some(&self.entries[i].1),
            None => None,
        }
    }

    /// Gives a key a value, in place of the one it had.
    pub fn insert(&mut self, key: String, value: V)
        ensures
            final(self)@ == old(self)@.insert(key@, value),
            old(self)@.contains_key(key@) ==> exists|i: int|
                #![trigger old(self).listed()[i]]
                0 <= i < old(self).listed().len() && old(self).listed()[i].0@ == key@
                    && final(self).listed() == old(self).listed().update(i, (key, value)),
            !old(self)@.contains_key(key@) ==> final(self).listed() == old(self).listed().push(
                (key, value),
            ),
    {
        proof {
            use_type_invariant(&*self);
        }
        let found: Option<usize> = self.find(key.as_str());
        let mut entries: Vec<(String, V)> = Vec::new();
        core::mem::swap(&mut self.entries, &mut entries);
        match found {
            Some(i) => {
                proof {
                    lemma_replaced(entries@, i as int, key, value);
                }
                entries.set(i, (key, value));
            },
            None => {
                proof {
                    lemma_added(entries@, key, value);
                }
                entries.push((key, value));
            },
        }
        self.entries = entries;
        proof {
            if let Some(i) = found {
                assert(old(self).listed()[i as int].0@ == key@);
            }
        }
    }

    /// Takes the value of a key out of the map.
    pub fn remove(&mut self, key: &str) -> (r: Option<V>)
        ensures
            final(self)@ == old(self)@.remove(key@),
            old(self)@.contains_key(key@) ==> exists|i: int|
                #![trigger old(self).listed()[i]]
                0 <= i < old(self).listed().len() && old(self).listed()[i].0@ == key@
                    && final(self).listed() == old(self).listed().remove(i),
            !old(self)@.contains_key(key@) ==> final(self).listed() == old(self).listed(),
            match r {
                Some(v) => old(self)@.contains_key(key@) && v == old(self)@[key@],
                None => !old(self)@.contains_key(key@),
            },
    {
        proof {
            use_type_invariant(&*self);
        }
        let found: Option<usize> = self.find(key);
        match found {
            Some(i) => {
                let mut entries: Vec<(String, V)> = Vec::new();
                core::mem::swap(&mut self.entries, &mut entries);
                proof {
                    lemma_removed(entries@, i as int);
                }
                let entry: (String, V) = entries.remove(i);
                self.entries = entries;
                assert(old(self).listed()[i as int].0@ == key@);
                Some(entry.1)
            },
            None => {
                assert(self@.remove(key@) =~= self@);
                None
            },
        }
    }

    /// Takes all entries out of the map.
    pub fn clear(&mut self)
        ensures
            final(self)@ == Map::<Seq<char>, V>::empty(),
            final(self).listed().len() == 0,
    {
        self.entries = Vec::new();
        assert(self@ =~= Map::<Seq<char>, V>::empty());
    }

    /// The number of entries.
    pub fn len(&self) -> (r: usize)
        ensures
            r == self.listed().len(),
    {
        self.entries.len()
    }

    /// The entry at a place in the order in which keys were added.
    pub fn entry(&self, i: usize) -> (r: &(String, V))
        requires
            i < self.listed().len(),
        ensures
            *r == self.listed()[i as int],
            self@.contains_key(r.0@),
            self@[r.0@] == r.1,
            forall|k: int|
                0 <= k < self.listed().len() && k != i ==> (#[trigger] self.listed()[k]).0@ != r.0@,
    {
        proof {
            use_type_invariant(self);
            lemma_entry(self.entries@, i as int);
        }
        &self.entries[i]
    }

    /// The list of entries holds every key once, with its value.
    pub proof fn lemma_listed(self)
        ensures
            forall|k: Seq<char>| #[trigger]
                self@.contains_key(k) ==> exists|i: int|
                    0 <= i < self.listed().len() && (#[trigger] self.listed()[i]).0@ == k,
    {
        assert forall|k: Seq<char>| #[trigger] self@.contains_key(k) implies exists|i: int|
            0 <= i < self.listed().len() && (#[trigger] self.listed()[i]).0@ == k by {
            lemma_place(self.entries@, k);
            let i = place(self.entries@, k)->0;
            assert(self.listed()[i].0@ == k);
        }
    }
}

} // verus!
