//! A string-keyed association map with unique keys, viewed as a
//! `Map<Seq<char>, V>`. It backs both the task registry and the flow cache.

use vstd::prelude::*;
use crate::text::str_eq;

verus! {

/// The mapping that an entry sequence denotes: later entries win, though
/// under `keys_unique` every key occurs at most once.
pub open spec fn map_of<V>(s: Seq<(String, V)>) -> Map<Seq<char>, V>
    decreases s.len(),
{
    if s.len() == 0 {
        Map::empty()
    } else {
        map_of(s.drop_last()).insert(s.last().0@, s.last().1)
    }
}

/// No two entries share a key.
pub open spec fn keys_unique<V>(s: Seq<(String, V)>) -> bool {
    forall|i: int, j: int| 0 <= i < j < s.len() ==> s[i].0@ != s[j].0@
}

/// `map_of(s)` holds a key exactly when some entry carries it.
pub proof fn lemma_map_of_contains<V>(s: Seq<(String, V)>, k: Seq<char>)
    ensures
        map_of(s).contains_key(k) <==> exists|i: int| 0 <= i < s.len() && s[i].0@ == k,
    decreases s.len(),
{
    if s.len() > 0 {
        lemma_map_of_contains(s.drop_last(), k);
        if s.last().0@ == k {
            assert(s[s.len() - 1].0@ == k);
        } else {
            if map_of(s).contains_key(k) {
                let i = choose|i: int| 0 <= i < s.drop_last().len() && s.drop_last()[i].0@ == k;
                assert(s[i].0@ == k);
            }
            if exists|i: int| 0 <= i < s.len() && s[i].0@ == k {
                let i = choose|i: int| 0 <= i < s.len() && s[i].0@ == k;
                assert(s.drop_last()[i].0@ == k);
            }
        }
    }
}

/// Under unique keys, the entry at `i` gives the key's value in `map_of(s)`.
pub proof fn lemma_map_of_index<V>(s: Seq<(String, V)>, i: int)
    requires
        keys_unique(s),
        0 <= i < s.len(),
    ensures
        map_of(s).contains_key(s[i].0@),
        map_of(s)[s[i].0@] == s[i].1,
    decreases s.len(),
{
    if i == s.len() - 1 {
    } else {
        assert(keys_unique(s.drop_last()));
        lemma_map_of_index(s.drop_last(), i);
        assert(s[i].0@ != s.last().0@);
    }
}

/// Replacing the entry at `i` by one with the same key updates the map at
/// that key and keeps the keys unique.
pub proof fn lemma_map_of_update<V>(s: Seq<(String, V)>, i: int, p: (String, V))
    requires
        keys_unique(s),
        0 <= i < s.len(),
        p.0@ == s[i].0@,
    ensures
        map_of(s.update(i, p)) == map_of(s).insert(p.0@, p.1),
        keys_unique(s.update(i, p)),
    decreases s.len(),
{
    let t = s.update(i, p);
    assert(keys_unique(t));
    if i == s.len() - 1 {
        assert(t.drop_last() =~= s.drop_last());
        assert(map_of(t) =~= map_of(s).insert(p.0@, p.1));
    } else {
        assert(keys_unique(s.drop_last()));
        assert(t.drop_last() =~= s.drop_last().update(i, p));
        lemma_map_of_update(s.drop_last(), i, p);
        assert(s[i].0@ != s.last().0@);
        assert(map_of(t) =~= map_of(s).insert(p.0@, p.1));
    }
}

/// Under unique keys, the map holds exactly as many names as there are
/// entries.
pub proof fn lemma_map_of_dom_len<V>(s: Seq<(String, V)>)
    requires
        keys_unique(s),
    ensures
        map_of(s).dom().finite(),
        map_of(s).dom().len() == s.len(),
    decreases s.len(),
{
    if s.len() > 0 {
        assert(keys_unique(s.drop_last()));
        lemma_map_of_dom_len(s.drop_last());
        lemma_map_of_contains(s.drop_last(), s.last().0@);
        assert(forall|i: int|
            0 <= i < s.drop_last().len() ==> (#[trigger] s.drop_last()[i]).0@ != s.last().0@);
        assert(!map_of(s.drop_last()).dom().contains(s.last().0@));
        assert(map_of(s).dom() =~= map_of(s.drop_last()).dom().insert(s.last().0@));
    }
}

/// Appending an entry inserts its key; a fresh key keeps the keys unique.
pub proof fn lemma_map_of_push<V>(s: Seq<(String, V)>, p: (String, V))
    ensures
        map_of(s.push(p)) == map_of(s).insert(p.0@, p.1),
        (forall|i: int| 0 <= i < s.len() ==> s[i].0@ != p.0@) && keys_unique(s)
            ==> keys_unique(s.push(p)),
{
    assert(s.push(p).drop_last() =~= s);
    if (forall|i: int| 0 <= i < s.len() ==> s[i].0@ != p.0@) && keys_unique(s) {
        assert(keys_unique(s.push(p)));
    }
}

/// Association map from names to values; the registry's and the cache's
/// single shared shape.
pub struct AssocMap<V> {
    pub entries: Vec<(String, V)>,
}

impl<V> View for AssocMap<V> {
    type V = Map<Seq<char>, V>;

    open spec fn view(&self) -> Map<Seq<char>, V> {
        map_of(self.entries@)
    }
}

impl<V> AssocMap<V> {
    /// Well-formed: no key occurs twice.
    pub open spec fn wf(&self) -> bool {
        keys_unique(self.entries@)
    }

    /// The entries in insertion order, for listing.
    pub open spec fn kv(&self) -> Seq<(String, V)> {
        self.entries@
    }

    /// An empty map.
    pub fn new() -> (r: AssocMap<V>)
        ensures
            r@ == Map::<Seq<char>, V>::empty(),
            r.wf(),
            r.kv().len() == 0,
    {
        AssocMap { entries: Vec::new() }
    }

    /// The number of known keys.
    pub fn size(&self) -> (n: usize)
        ensures
            n == self.kv().len(),
    {
        self.entries.len()
    }

    /// The entry at position `i`.
    pub fn entry(&self, i: usize) -> (r: &(String, V))
        requires
            i < self.kv().len(),
        ensures
            *r == self.kv()[i as int],
    {
        &self.entries[i]
    }

    /// The position of `key`, if any entry carries it.
    fn find(&self, key: &str) -> (r: Option<usize>)
        ensures
            match r {
                Some(i) => i < self.kv().len() && self.kv()[i as int].0@ == key@,
                None => forall|i: int| 0 <= i < self.kv().len() ==> self.kv()[i].0@ != key@,
            },
    {
        let n = self.entries.len();
        let mut i: usize = 0;
        while i < n
            invariant
                i <= n,
                n == self.entries@.len(),
                forall|j: int| 0 <= j < i ==> self.entries@[j].0@ != key@,
            decreases n - i,
        {
            if str_eq(self.entries[i].0.as_str(), key) {
                return Some(i);
            }
            i = i + 1;
        }
        None
    }

    /// The value under `key`, if the map holds it.
    pub fn get(&self, key: &str) -> (r: Option<&V>)
        requires
            self.wf(),
        ensures
            match r {
                Some(v) => self@.contains_key(key@) && *v == self@[key@],
                None => !self@.contains_key(key@),
            },
    {
        proof {
            lemma_map_of_contains(self.entries@, key@);
        }
        match self.find(key) {
            Some(i) => {
                proof {
                    lemma_map_of_index(self.entries@, i as int);
                }
                let pair = &self.entries[i];
                Some(&pair.1)
            },
            None => {
                proof {
                    assert(forall|j: int|
                        0 <= j < self.kv().len() ==> (#[trigger] self.kv()[j]).0@ != key@);
                    assert(forall|j: int|
                        0 <= j < self.entries@.len() ==> (#[trigger] self.entries@[j]).0@
                            != key@) by {
                        assert(forall|j: int|
                            0 <= j < self.entries@.len() ==> self.entries@[j] == self.kv()[j]);
                    }
                    assert(!self@.contains_key(key@));
                }
                None
            },
        }
    }

    /// Binds `key` to `value`, overwriting any earlier binding.
    pub fn insert(&mut self, key: &str, value: V)
        requires
            old(self).wf(),
        ensures
            final(self).wf(),
            final(self)@ == old(self)@.insert(key@, value),
            final(self).kv().len() == if old(self)@.contains_key(key@) {
                old(self).kv().len()
            } else {
                old(self).kv().len() + 1
            },
    {
        proof {
            lemma_map_of_contains(self.entries@, key@);
        }
        let owned = key.to_owned();
        match self.find(key) {
            Some(i) => {
                let ghost s = self.entries@;
                self.entries.remove(i);
                self.entries.insert(i, (owned, value));
                proof {
                    assert(self.entries@ =~= s.update(i as int, (owned, value)));
                    lemma_map_of_update(s, i as int, (owned, value));
                }
            },
            None => {
                let ghost s = self.entries@;
                proof {
                    lemma_map_of_push(s, (owned, value));
                    assert(forall|j: int|
                        0 <= j < self.kv().len() ==> (#[trigger] self.kv()[j]).0@ != key@);
                    assert(forall|j: int| 0 <= j < s.len() ==> (#[trigger] s[j]).0@ != key@) by {
                        assert(forall|j: int| 0 <= j < s.len() ==> s[j] == self.kv()[j]);
                    }
                    assert(keys_unique(s.push((owned, value))));
                }
                self.entries.push((owned, value));
            },
        }
    }
}

} // verus!
