//! A map with string keys, kept in the order of its keys.

use crate::text::{before, lemma_before_irreflexive, lemma_before_transitive, order, Order};
use vstd::prelude::*;

verus! {

/// A map from strings to `V` whose entries stand in the order of their keys.
#[derive(Debug, PartialEq, Eq)]
pub struct StrMap<V> {
    entries: Vec<(String, V)>,
}

/// Whether the strings stand in strictly ascending order, so that none occurs twice.
pub open spec fn ascending(keys: Seq<Seq<char>>) -> bool {
    forall|i: int, j: int|
        0 <= i < j < keys.len() ==> before(#[trigger] keys[i], #[trigger] keys[j])
}

/// The keys of a list of entries.
pub open spec fn keys_of<V>(entries: Seq<(String, V)>) -> Seq<Seq<char>> {
    entries.map_values(|e: (String, V)| e.0@)
}

impl<V> StrMap<V> {
    #[verifier::type_invariant]
    spec fn ordered(self) -> bool {
        ascending(keys_of(self.entries@))
    }

    /// The keys in their order.
    pub closed spec fn keys(self) -> Seq<Seq<char>> {
        keys_of(self.entries@)
    }
}

impl<V> View for StrMap<V> {
    type V = Map<Seq<char>, V>;

    closed spec fn view(&self) -> Map<Seq<char>, V> {
        map_of(self.entries@)
    }
}

/// The map that a list of entries stands for.
pub closed spec fn map_of<V>(entries: Seq<(String, V)>) -> Map<Seq<char>, V> {
    Map::new(
        |k: Seq<char>| keys_of(entries).contains(k),
        |k: Seq<char>| entries[keys_of(entries).index_of(k)].1,
    )
}

/// In ascending keys each key has one place.
proof fn lemma_one_place(keys: Seq<Seq<char>>, i: int)
    requires
        ascending(keys),
        0 <= i < keys.len(),
    ensures
        keys.index_of(keys[i]) == i,
{
    let k = keys[i];
    assert(keys.contains(k));
    let j = keys.index_of(k);
    assert(0 <= j < keys.len() && keys[j] == k);
    lemma_before_irreflexive(k);
    if i < j {
        assert(before(keys[i], keys[j]));
    }
    if j < i {
        assert(before(keys[j], keys[i]));
    }
}

/// The map holds each entry of its list.
proof fn lemma_entry<V>(entries: Seq<(String, V)>, i: int)
    requires
        ascending(keys_of(entries)),
        0 <= i < entries.len(),
    ensures
        map_of(entries).contains_key(entries[i].0@),
        map_of(entries)[entries[i].0@] == entries[i].1,
{
    lemma_one_place(keys_of(entries), i);
    assert(keys_of(entries)[i] == entries[i].0@);
    assert(keys_of(entries).contains(entries[i].0@));
}

/// Replacing the value of an entry.
proof fn lemma_replace<V>(old_entries: Seq<(String, V)>, new_entries: Seq<(String, V)>, i: int)
    requires
        ascending(keys_of(old_entries)),
        0 <= i < old_entries.len(),
        new_entries.len() == old_entries.len(),
        forall|j: int|
            0 <= j < old_entries.len() && j != i ==> new_entries[j] == #[trigger] old_entries[j],
        new_entries[i].0@ == old_entries[i].0@,
    ensures
        ascending(keys_of(new_entries)),
        map_of(new_entries) == map_of(old_entries).insert(old_entries[i].0@, new_entries[i].1),
{
    assert(keys_of(new_entries) =~= keys_of(old_entries));
    let m = map_of(old_entries).insert(old_entries[i].0@, new_entries[i].1);
    lemma_entry(old_entries, i);
    assert forall|k: Seq<char>| map_of(new_entries).contains_key(k) implies map_of(new_entries)[k]
        == m[k] by {
        let j = keys_of(new_entries).index_of(k);
        assert(keys_of(new_entries)[j] == k);
        lemma_entry(new_entries, j);
        lemma_entry(old_entries, j);
        if j != i {
            lemma_one_place(keys_of(old_entries), i);
            lemma_one_place(keys_of(old_entries), j);
        }
    }
    assert(map_of(new_entries) =~= m);
}

/// Placing a new entry between the smaller and the greater ones.
proof fn lemma_place<V>(entries: Seq<(String, V)>, i: int, e: (String, V))
    requires
        ascending(keys_of(entries)),
        0 <= i <= entries.len(),
        forall|j: int| 0 <= j < i ==> before(#[trigger] entries[j].0@, e.0@),
        forall|j: int| i <= j < entries.len() ==> before(e.0@, #[trigger] entries[j].0@),
    ensures
        ascending(keys_of(entries.insert(i, e))),
        map_of(entries.insert(i, e)) == map_of(entries).insert(e.0@, e.1),
        !map_of(entries).contains_key(e.0@),
{
    let new = entries.insert(i, e);
    let ks = keys_of(new);
    let old_ks = keys_of(entries);
    assert forall|a: int, b: int| 0 <= a < b < ks.len() implies before(
        #[trigger] ks[a],
        #[trigger] ks[b],
    ) by {
        let x = if a < i { a } else { a - 1 };
        let y = if b < i { b } else { b - 1 };
        if a != i && b != i {
            assert(ks[a] == old_ks[x] && ks[b] == old_ks[y]);
        } else if a == i {
            assert(ks[b] == entries[y].0@);
        } else {
            assert(ks[a] == entries[x].0@);
        }
    }
    lemma_before_irreflexive(e.0@);
    assert forall|j: int| 0 <= j < entries.len() implies #[trigger] old_ks[j] != e.0@ by {
        assert(old_ks[j] == entries[j].0@);
    }
    let m = map_of(entries).insert(e.0@, e.1);
    lemma_entry(new, i);
    assert forall|k: Seq<char>| #[trigger] map_of(new).contains_key(k) <==> m.contains_key(k) by {
        if map_of(new).contains_key(k) && k != e.0@ {
            let j = ks.index_of(k);
            assert(ks[j] == k);
            let x = if j < i { j } else { j - 1 };
            assert(j != i);
            assert(old_ks[x] == k);
        }
        if map_of(entries).contains_key(k) {
            let j = old_ks.index_of(k);
            assert(old_ks[j] == k);
            let x = if j < i { j } else { j + 1 };
            assert(ks[x] == k);
        }
    }
    assert forall|k: Seq<char>| #[trigger] map_of(new).contains_key(k) implies map_of(new)[k]
        == m[k] by {
        if k != e.0@ {
            let j = old_ks.index_of(k);
            assert(map_of(entries).contains_key(k));
            assert(old_ks[j] == k);
            let x = if j < i { j } else { j + 1 };
            assert(new[x] == entries[j]);
            lemma_entry(new, x);
            lemma_entry(entries, j);
        }
    }
    assert(map_of(new) =~= m);
}

impl<V> StrMap<V> {
    /// A map without entries.
    pub fn new() -> (r: Self)
        ensures
            r@ == Map::<Seq<char>, V>::empty(),
    {
        let r = StrMap { entries: Vec::new() };
        assert(r@ =~= Map::<Seq<char>, V>::empty());
        r
    }

    /// Where `key` stands, or where it would have to stand.
    fn find(&self, key: &str) -> (r: Result<usize, usize>)
        ensures
            match r {
                Ok(i) => i < self.entries@.len() && self.entries@[i as int].0@ == key@,
                Err(i) => {
                    &&& i <= self.entries@.len()
                    &&& forall|j: int| 0 <= j < i ==> before(#[trigger] self.entries@[j].0@, key@)
                    &&& forall|j: int|
                        i <= j < self.entries@.len() ==> before(key@, #[trigger] self.entries@[j].0@)
                },
            },
    {
        proof {
            use_type_invariant(self);
        }
        let ghost ks = keys_of(self.entries@);
        let mut lo: usize = 0;
        let mut hi: usize = self.entries.len();
        while lo < hi
            invariant
                lo <= hi <= self.entries@.len(),
                ks == keys_of(self.entries@),
                ascending(ks),
                forall|j: int| 0 <= j < lo ==> before(#[trigger] self.entries@[j].0@, key@),
                forall|j: int|
                    hi <= j < self.entries@.len() ==> before(key@, #[trigger] self.entries@[j].0@),
            decreases hi - lo,
        {
            let mid: usize = lo + (hi - lo) / 2;
            let ghost m = self.entries@[mid as int].0@;
            assert(ks[mid as int] == m);
            match order(self.entries[mid].0.as_str(), key) {
                Order::Same => {
                    return Ok(mid);
                },
                Order::Before => {
                    assert forall|j: int| 0 <= j < mid + 1 implies before(
                        #[trigger] self.entries@[j].0@,
                        key@,
                    ) by {
                        if j < mid {
                            assert(before(ks[j], ks[mid as int]));
                            lemma_before_transitive(ks[j], m, key@);
                        }
                    }
                    lo = mid + 1;
                },
                Order::After => {
                    assert forall|j: int| mid <= j < self.entries@.len() implies before(
                        key@,
                        #[trigger] self.entries@[j].0@,
                    ) by {
                        if j > mid {
                            assert(before(ks[mid as int], ks[j]));
                            lemma_before_transitive(key@, m, ks[j]);
                        }
                    }
                    hi = mid;
                },
            }
        }
        Err(lo)
    }

    /// The value at `key`.
    pub fn get(&self, key: &str) -> (r: Option<&V>)
        ensures
            r == (if self@.contains_key(key@) {
                Some(&self@[key@])
            } else {
                None
            }),
    {
        proof {
            use_type_invariant(self);
        }
        match self.find(key) {
            Ok(i) => {
                proof {
                    lemma_entry(self.entries@, i as int);
                }
                Some(&self.entries[i].1)
            },
            Err(i) => {
                proof {
                    if self@.contains_key(key@) {
                        let j = self.keys().index_of(key@);
                        assert(self.keys()[j] == key@);
                        assert(self.entries@[j].0@ == key@);
                        lemma_before_irreflexive(key@);
                    }
                }
                None
            },
        }
    }

    /// Sets the value at `key` and hands back the one that stood there.
    pub fn insert(&mut self, key: String, value: V) -> (r: Option<V>)
        ensures
            final(self)@ == old(self)@.insert(key@, value),
            r == (if old(self)@.contains_key(key@) {
                Some(old(self)@[key@])
            } else {
                None
            }),
    {
        proof {
            use_type_invariant(&*self);
        }
        let place = self.find(key.as_str());
        let mut entries: Vec<(String, V)> = Vec::new();
        std::mem::swap(&mut entries, &mut self.entries);
        let ghost was = entries@;
        match place {
            Ok(i) => {
                proof {
                    lemma_entry(was, i as int);
                }
                let mut e = (key, value);
                std::mem::swap(&mut e, &mut entries[i]);
                proof {
                    lemma_replace(was, entries@, i as int);
                }
                self.entries = entries;
                Some(e.1)
            },
            Err(i) => {
                proof {
                    lemma_place(was, i as int, (key, value));
                }
                entries.insert(i, (key, value));
                self.entries = entries;
                None
            },
        }
    }

    /// How many entries there are.
    pub fn len(&self) -> (r: usize)
        ensures
            r == self.keys().len(),
            ascending(self.keys()),
            forall|k: Seq<char>| self@.contains_key(k) <==> #[trigger] self.keys().contains(k),
    {
        proof {
            use_type_invariant(self);
        }
        self.entries.len()
    }

    /// The entry in place `i` of the order.
    pub fn at(&self, i: usize) -> (r: (&str, &V))
        requires
            i < self.keys().len(),
        ensures
            r.0@ == self.keys()[i as int],
            self@.contains_key(r.0@),
            *r.1 == self@[r.0@],
    {
        proof {
            use_type_invariant(self);
            lemma_entry(self.entries@, i as int);
        }
        (self.entries[i].0.as_str(), &self.entries[i].1)
    }
}

impl<V: Clone> Clone for StrMap<V> {
    fn clone(&self) -> (r: Self)
        ensures
            r.keys() == self.keys(),
            r@.dom() == self@.dom(),
            forall|k: Seq<char>|
                self@.contains_key(k) ==> cloned::<V>(self@[k], #[trigger] r@[k]),
    {
        proof {
            use_type_invariant(self);
        }
        let n: usize = self.entries.len();
        let mut entries: Vec<(String, V)> = Vec::new();
        let mut i: usize = 0;
        while i < n
            invariant
                i <= n == self.entries@.len(),
                entries@.len() == i,
                forall|j: int|
                    0 <= j < i ==> {
                        &&& (#[trigger] entries@[j]).0@ == self.entries@[j].0@
                        &&& cloned::<V>(self.entries@[j].1, entries@[j].1)
                    },
            decreases n - i,
        {
            entries.push((self.entries[i].0.clone(), self.entries[i].1.clone()));
            i = i + 1;
        }
        assert(keys_of(entries@) =~= keys_of(self.entries@));
        let r = StrMap { entries };
        proof {
            assert(r@.dom() =~= self@.dom());
            assert forall|k: Seq<char>| self@.contains_key(k) implies cloned::<V>(
                self@[k],
                #[trigger] r@[k],
            ) by {
                let j = keys_of(self.entries@).index_of(k);
                assert(keys_of(self.entries@)[j] == k);
                lemma_entry(self.entries@, j);
                lemma_entry(r.entries@, j);
            }
        }
        r
    }
}

impl<V> Default for StrMap<V> {
    fn default() -> (r: Self)
        ensures
            r@ == Map::<Seq<char>, V>::empty(),
    {
        StrMap::new()
    }
}

} // verus!
