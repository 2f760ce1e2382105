//! A map keyed by names, kept in ascending key order.

use vstd::prelude::*;

use crate::list::{ascending, lists};
use crate::text::{less, lex_lt, lemma_lex_irreflexive, lemma_lex_total, lemma_lex_transitive, same};

verus! {

/// A map from names to values, walked in ascending name order.
#[derive(Debug, PartialEq)]
pub struct NameMap<V> {
    entries: Vec<(String, V)>,
}

spec fn keys_of<V>(e: Seq<(String, V)>) -> Seq<Seq<char>> {
    Seq::new(e.len(), |i: int| e[i].0@)
}

spec fn map_of<V>(e: Seq<(String, V)>) -> Map<Seq<char>, V> {
    Map::new(
        |k: Seq<char>| keys_of(e).contains(k),
        |k: Seq<char>| e[choose|i: int| 0 <= i < e.len() && keys_of(e)[i] == k].1,
    )
}

impl<V> View for NameMap<V> {
    type V = Map<Seq<char>, V>;

    closed spec fn view(&self) -> Map<Seq<char>, V> {
        map_of(self.entries@)
    }
}

proof fn lemma_entry<V>(e: Seq<(String, V)>, i: int)
    requires
        ascending(keys_of(e)),
        0 <= i < e.len(),
    ensures
        map_of(e).contains_key(e[i].0@),
        map_of(e)[e[i].0@] == e[i].1,
{
    let k = e[i].0@;
    assert(keys_of(e)[i] == k);
    let j = choose|j: int| 0 <= j < e.len() && keys_of(e)[j] == k;
    lemma_lex_irreflexive(k);
    if j != i {
        assert(lex_lt(keys_of(e)[i], keys_of(e)[j]) || lex_lt(keys_of(e)[j], keys_of(e)[i]));
    }
}

impl<V> NameMap<V> {
    #[verifier::type_invariant]
    spec fn sorted(self) -> bool {
        ascending(keys_of(self.entries@))
    }

    /// The keys in the order in which the map is walked.
    pub closed spec fn names(self) -> Seq<Seq<char>> {
        keys_of(self.entries@)
    }

    /// The empty map.
    pub fn new() -> (r: NameMap<V>)
        ensures
            r@ == Map::<Seq<char>, V>::empty(),
            r.names() == Seq::<Seq<char>>::empty(),
    {
        let r = NameMap { entries: Vec::new() };
        assert(r@ =~= Map::<Seq<char>, V>::empty());
        assert(r.names() =~= Seq::<Seq<char>>::empty());
        r
    }

    /// Number of entries. The keys are the ascending listing of the domain.
    pub fn len(&self) -> (n: usize)
        ensures
            n == self.names().len(),
            lists(self.names(), self@.dom()),
    {
        proof {
            use_type_invariant(self);
        }
        self.entries.len()
    }

    /// Whether the map holds nothing.
    pub fn is_empty(&self) -> (r: bool)
        ensures
            r == (self.names().len() == 0),
            r == (self@ == Map::<Seq<char>, V>::empty()),
    {
        proof {
            if self.names().len() > 0 {
                assert(self.names()[0] == self.entries@[0].0@);
                assert(self@.contains_key(self.entries@[0].0@));
            } else {
                assert(self@ =~= Map::<Seq<char>, V>::empty());
            }
        }
        self.entries.len() == 0
    }

    /// The `i`-th key.
    pub fn key_at(&self, i: usize) -> (k: &String)
        requires
            i < self.names().len(),
        ensures
            k@ == self.names()[i as int],
            self@.contains_key(k@),
    {
        proof {
            use_type_invariant(self);
            lemma_entry(self.entries@, i as int);
        }
        &self.entries[i].0
    }

    /// The value under the `i`-th key.
    pub fn value_at(&self, i: usize) -> (v: &V)
        requires
            i < self.names().len(),
        ensures
            self@.contains_key(self.names()[i as int]),
            *v == self@[self.names()[i as int]],
    {
        proof {
            use_type_invariant(self);
            lemma_entry(self.entries@, i as int);
        }
        &self.entries[i].1
    }

    fn find(&self, k: &str) -> (r: (bool, usize))
        ensures
            r.1 <= self.entries@.len(),
            r.0 ==> r.1 < self.entries@.len() && self.entries@[r.1 as int].0@ == k@,
            forall|j: int| 0 <= j < r.1 ==> lex_lt(#[trigger] self.names()[j], k@),
            !r.0 ==> forall|j: int|
                r.1 <= j < self.entries@.len() ==> lex_lt(k@, #[trigger] self.names()[j]),
            r.0 == self@.contains_key(k@),
    {
        proof {
            use_type_invariant(self);
        }
        let mut i: usize = 0;
        while i < self.entries.len() && less(self.entries[i].0.as_str(), k)
            invariant
                i <= self.entries@.len(),
                forall|j: int| 0 <= j < i ==> lex_lt(#[trigger] self.names()[j], k@),
            decreases self.entries.len() - i,
        {
            i += 1;
        }
        if i < self.entries.len() && same(self.entries[i].0.as_str(), k) {
            assert(self.names()[i as int] == k@);
            return (true, i);
        }
        proof {
            if i < self.entries@.len() {
                lemma_lex_total(k@, self.names()[i as int]);
            }
            assert forall|j: int| i <= j < self.entries@.len() implies lex_lt(
                k@,
                #[trigger] self.names()[j],
            ) by {
                if j > i {
                    lemma_lex_transitive(k@, self.names()[i as int], self.names()[j]);
                }
            }
            lemma_lex_irreflexive(k@);
            if self.names().contains(k@) {
                let j = choose|j: int| 0 <= j < self.names().len() && self.names()[j] == k@;
                assert(lex_lt(self.names()[j], k@) || lex_lt(k@, self.names()[j]));
            }
        }
        (false, i)
    }

    /// Whether `k` is a key.
    pub fn contains_key(&self, k: &str) -> (r: bool)
        ensures
            r == self@.contains_key(k@),
    {
        self.find(k).0
    }

    /// The value under `k`.
    pub fn get(&self, k: &str) -> (r: Option<&V>)
        ensures
            r == if self@.contains_key(k@) {
                Some(&self@[k@])
            } else {
                None
            },
    {
        let (found, i) = self.find(k);
        if found {
            proof {
                use_type_invariant(self);
                lemma_entry(self.entries@, i as int);
            }
            Some(&self.entries[i].1)
        } else {
            None
        }
    }

    /// Puts `v` under `k`, replacing what was there.
    pub fn insert(&mut self, k: String, v: V)
        ensures
            final(self)@ == old(self)@.insert(k@, v),
            lists(final(self).names(), final(self)@.dom()),
    {
        proof {
            use_type_invariant(&*self);
        }
        let (found, i) = self.find(k.as_str());
        let ghost key = k@;
        let ghost before = self.entries@;
        assert forall|j: int| 0 <= j < i implies lex_lt(#[trigger] keys_of(before)[j], key) by {
            assert(lex_lt(self.names()[j], key));
        }
        assert forall|j: int| !found && i <= j < before.len() implies lex_lt(
            key,
            #[trigger] keys_of(before)[j],
        ) by {
            assert(lex_lt(key, self.names()[j]));
        }
        let mut e: Vec<(String, V)> = Vec::new();
        core::mem::swap(&mut e, &mut self.entries);
        if found {
            e[i] = (k, v);
            assert(keys_of(e@) =~= keys_of(before));
        } else {
            e.insert(i, (k, v));
            assert(keys_of(e@) =~= keys_of(before).insert(i as int, key));
        }
        proof {
            let after = e@;
            assert forall|a: int, b: int| 0 <= a < b < after.len() implies lex_lt(
                #[trigger] keys_of(after)[a],
                #[trigger] keys_of(after)[b],
            ) by {
                let x = keys_of(before);
                if !found {
                    let p = if a < i { a } else { a - 1 };
                    let q = if b < i { b } else { b - 1 };
                    if a == i {
                        assert(keys_of(after)[b] == x[q]);
                    } else if b == i {
                        assert(keys_of(after)[a] == x[p]);
                    } else {
                        assert(lex_lt(x[p], x[q]));
                    }
                }
            }
            assert forall|x: Seq<char>|
                #[trigger] keys_of(after).contains(x) <==> keys_of(before).contains(x) || x
                    == key by {
                if keys_of(before).contains(x) {
                    let j = choose|j: int| 0 <= j < before.len() && keys_of(before)[j] == x;
                    if found || j < i {
                        assert(keys_of(after)[j] == x);
                    } else {
                        assert(keys_of(after)[j + 1] == x);
                    }
                }
                if x == key {
                    assert(keys_of(after)[i as int] == x);
                }
                if keys_of(after).contains(x) && x != key {
                    let j = choose|j: int| 0 <= j < after.len() && keys_of(after)[j] == x;
                    if found || j < i {
                        assert(keys_of(before)[j] == x);
                    } else {
                        assert(keys_of(before)[j - 1] == x);
                    }
                }
            }
            assert forall|x: Seq<char>| map_of(after).contains_key(x) implies #[trigger] map_of(
                after,
            )[x] == map_of(before).insert(key, v)[x] by {
                let j = choose|j: int| 0 <= j < after.len() && keys_of(after)[j] == x;
                lemma_entry(after, j);
                lemma_entry(after, i as int);
                if x != key {
                    if found || j < i {
                        lemma_entry(before, j);
                    } else {
                        lemma_entry(before, j - 1);
                    }
                }
            }
            assert(map_of(after) =~= map_of(before).insert(key, v));
        }
        self.entries = e;
    }

    /// Takes out the value under `k`.
    pub fn remove(&mut self, k: &str) -> (r: Option<V>)
        ensures
            final(self)@ == old(self)@.remove(k@),
            lists(final(self).names(), final(self)@.dom()),
            r == if old(self)@.contains_key(k@) {
                Some(old(self)@[k@])
            } else {
                None
            },
    {
        proof {
            use_type_invariant(&*self);
        }
        let (found, i) = self.find(k);
        if !found {
            assert(self@ =~= self@.remove(k@));
            return None;
        }
        let ghost before = self.entries@;
        let mut e: Vec<(String, V)> = Vec::new();
        core::mem::swap(&mut e, &mut self.entries);
        let (_, v) = e.remove(i);
        proof {
            let after = e@;
            lemma_entry(before, i as int);
            assert(keys_of(after) =~= keys_of(before).remove(i as int));
            assert(ascending(keys_of(after)));
            assert forall|x: Seq<char>|
                #[trigger] keys_of(after).contains(x) <==> keys_of(before).contains(x) && x
                    != k@ by {
                if keys_of(before).contains(x) && x != k@ {
                    let j = choose|j: int| 0 <= j < before.len() && keys_of(before)[j] == x;
                    if j < i {
                        assert(keys_of(after)[j] == x);
                    } else {
                        assert(keys_of(after)[j - 1] == x);
                    }
                }
                if keys_of(after).contains(x) {
                    let j = choose|j: int| 0 <= j < after.len() && keys_of(after)[j] == x;
                    lemma_lex_irreflexive(k@);
                    if j < i {
                        assert(keys_of(before)[j] == x);
                        assert(lex_lt(keys_of(before)[j], keys_of(before)[i as int]));
                    } else {
                        assert(keys_of(before)[j + 1] == x);
                        assert(lex_lt(keys_of(before)[i as int], keys_of(before)[j + 1]));
                    }
                }
            }
            assert forall|x: Seq<char>| map_of(after).contains_key(x) implies #[trigger] map_of(
                after,
            )[x] == map_of(before)[x] by {
                let j = choose|j: int| 0 <= j < after.len() && keys_of(after)[j] == x;
                lemma_entry(after, j);
                if j < i {
                    lemma_entry(before, j);
                } else {
                    lemma_entry(before, j + 1);
                }
            }
            assert(map_of(after) =~= map_of(before).remove(k@));
        }
        self.entries = e;
        Some(v)
    }
}

impl<V: Clone> NameMap<V> {
    /// A copy of the map, each value cloned.
    pub fn duplicate(&self) -> (r: NameMap<V>)
        ensures
            r.names() == self.names(),
            r@.dom() == self@.dom(),
            forall|k: Seq<char>| #[trigger]
                r@.contains_key(k) ==> vstd::pervasive::cloned::<V>(self@[k], r@[k]),
    {
        proof {
            use_type_invariant(self);
        }
        let mut e: Vec<(String, V)> = Vec::new();
        let mut i: usize = 0;
        while i < self.entries.len()
            invariant
                i <= self.entries.len(),
                e@.len() == i,
                forall|j: int|
                    0 <= j < i ==> (#[trigger] e@[j]).0@ == self.entries@[j].0@
                        && vstd::pervasive::cloned::<V>(self.entries@[j].1, e@[j].1),
            decreases self.entries.len() - i,
        {
            e.push((self.entries[i].0.clone(), self.entries[i].1.clone()));
            i += 1;
        }
        proof {
            assert(keys_of(e@) =~= keys_of(self.entries@));
            assert forall|k: Seq<char>| #[trigger]
                map_of(e@).contains_key(k) implies vstd::pervasive::cloned::<V>(
                map_of(self.entries@)[k],
                map_of(e@)[k],
            ) by {
                let j = choose|j: int| 0 <= j < e@.len() && keys_of(e@)[j] == k;
                lemma_entry(e@, j);
                lemma_entry(self.entries@, j);
            }
            assert(map_of(e@).dom() =~= map_of(self.entries@).dom());
        }
        NameMap { entries: e }
    }
}

impl<V> Default for NameMap<V> {
    fn default() -> (r: NameMap<V>)
        ensures
            r@ == Map::<Seq<char>, V>::empty(),
    {
        NameMap::new()
    }
}

} // verus!
