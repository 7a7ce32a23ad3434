//! A map from text keys to values that keeps its entries in the order of the
//! keys, so that walking it meets them in that order.

use crate::text::{lemma_text_lt_irreflexive, lemma_text_lt_total, lemma_text_lt_transitive, str_lt, text_lt};
use vstd::prelude::*;

verus! {

/// Whether the keys stand in strictly rising order.
pub open spec fn keys_sorted(keys: Seq<Seq<char>>) -> bool {
    forall|i: int, j: int| 0 <= i < j < keys.len() ==> text_lt(#[trigger] keys[i], #[trigger] keys[j])
}

/// In a sorted sequence of keys no key stands at two places.
pub proof fn lemma_sorted_keys_distinct(keys: Seq<Seq<char>>, i: int, j: int)
    requires
        keys_sorted(keys),
        0 <= i < keys.len(),
        0 <= j < keys.len(),
        keys[i] == keys[j],
    ensures
        i == j,
{
    lemma_text_lt_irreflexive(keys[i]);
}

/// An ordered map keyed by text.
#[derive(Debug)]
pub struct NameMap<V> {
    keys: Vec<String>,
    values: Vec<V>,
}

impl<V> View for NameMap<V> {
    type V = Map<Seq<char>, V>;

    /// The map as a mathematical map from key to value.
    open spec fn view(&self) -> Map<Seq<char>, V> {
        Map::new(|k: Seq<char>| self.keys().contains(k), |k: Seq<char>| self.values()[self.place_of(k)])
    }
}

impl<V> NameMap<V> {
    /// The keys, in the order in which the map is walked.
    pub closed spec fn keys(&self) -> Seq<Seq<char>> {
        Seq::new(self.keys@.len(), |i: int| self.keys@[i]@)
    }

    /// The values, each at the place of its key.
    pub closed spec fn values(&self) -> Seq<V> {
        self.values@
    }

    /// The map is well formed: one value for each key, the keys rising.
    pub open spec fn wf(&self) -> bool {
        &&& self.keys().len() == self.values().len()
        &&& keys_sorted(self.keys())
    }

    /// The place at which a key stands.
    pub open spec fn place_of(&self, k: Seq<char>) -> int {
        choose|i: int| 0 <= i < self.keys().len() && self.keys()[i] == k
    }

    /// In a well-formed map the entry at place `i` is the one its key leads
    /// to.
    pub proof fn lemma_entry_at(&self, i: int)
        requires
            self.wf(),
            0 <= i < self.keys().len(),
        ensures
            self@.contains_key(self.keys()[i]),
            self.place_of(self.keys()[i]) == i,
            self@[self.keys()[i]] == self.values()[i],
    {
        let k = self.keys()[i];
        let p = self.place_of(k);
        lemma_sorted_keys_distinct(self.keys(), i, p);
    }

    /// An empty map.
    pub fn new() -> (r: Self)
        ensures
            r.wf(),
            r.keys() == Seq::<Seq<char>>::empty(),
            r.values() == Seq::<V>::empty(),
            r@ == Map::<Seq<char>, V>::empty(),
    {
        let r = NameMap { keys: Vec::new(), values: Vec::new() };
        assert(r.keys() =~= Seq::<Seq<char>>::empty());
        assert(r@ =~= Map::<Seq<char>, V>::empty());
        r
    }

    /// A well-formed map has as many keys as it has places.
    pub proof fn lemma_len(&self)
        requires
            self.wf(),
        ensures
            self@.dom().finite(),
            self@.dom().len() == self.keys().len(),
    {
        let keys = self.keys();
        assert(keys.no_duplicates()) by {
            assert forall|i: int, j: int| 0 <= i < keys.len() && 0 <= j < keys.len() && i != j implies keys[i]
                != keys[j] by {
                if keys[i] == keys[j] {
                    lemma_sorted_keys_distinct(keys, i, j);
                }
            }
        }
        keys.unique_seq_to_set();
        vstd::seq_lib::seq_to_set_is_finite(keys);
        assert(self@.dom() =~= keys.to_set());
    }

    /// The number of entries.
    pub fn len(&self) -> (r: usize)
        requires
            self.wf(),
        ensures
            r == self.keys().len(),
            r == self@.dom().len(),
    {
        proof {
            self.lemma_len();
        }
        self.keys.len()
    }

    /// The place of `key`, if the map holds it.
    pub fn position(&self, key: &str) -> (r: Option<usize>)
        requires
            self.wf(),
        ensures
            match r {
                Some(i) => i < self.keys().len() && self.keys()[i as int] == key@ && self.place_of(key@) == i,
                None => !self@.contains_key(key@),
            },
    {
        let wanted = key.to_string();
        let mut i: usize = 0;
        while i < self.keys.len()
            invariant
                self.wf(),
                i <= self.keys.len(),
                wanted@ == key@,
                forall|j: int| 0 <= j < i ==> self.keys()[j] != key@,
            decreases self.keys.len() - i,
        {
            if self.keys[i] == wanted {
                proof {
                    self.lemma_entry_at(i as int);
                }
                return Some(i);
            }
            i += 1;
        }
        None
    }

    /// Whether the map holds `key`.
    pub fn contains_key(&self, key: &str) -> (r: bool)
        requires
            self.wf(),
        ensures
            r == self@.contains_key(key@),
    {
        self.position(key).is_some()
    }

    /// The key at place `i`.
    pub fn key_at(&self, i: usize) -> (r: &String)
        requires
            self.wf(),
            i < self.keys().len(),
        ensures
            r@ == self.keys()[i as int],
    {
        &self.keys[i]
    }

    /// The value at place `i`.
    pub fn value_at(&self, i: usize) -> (r: &V)
        requires
            self.wf(),
            i < self.keys().len(),
        ensures
            *r == self.values()[i as int],
            *r == self@[self.keys()[i as int]],
    {
        proof {
            self.lemma_entry_at(i as int);
        }
        &self.values[i]
    }

    /// The value at place `i`, to be changed in place. The keys stay as they
    /// are, and so does every other value.
    pub fn value_at_mut(&mut self, i: usize) -> (r: &mut V)
        requires
            old(self).wf(),
            i < old(self).keys().len(),
        ensures
            *r == old(self).values()[i as int],
            final(self).keys() == old(self).keys(),
            final(self).values() == old(self).values().update(i as int, *final(r)),
            final(self).wf(),
            final(self)@ == old(self)@.insert(old(self).keys()[i as int], *final(r)),
    {
        proof {
            Self::lemma_update_value(*old(self), i as int);
        }
        &mut self.values[i]
    }

    /// Changing the value at one place changes the map at that key alone.
    proof fn lemma_update_value(before: Self, i: int)
        requires
            before.wf(),
            0 <= i < before.keys().len(),
        ensures
            forall|after: Self, v: V|
                after.keys() == before.keys() && #[trigger] after.values() == before.values().update(i, v)
                    ==> after.wf() && after@ == #[trigger] before@.insert(before.keys()[i], v),
    {
        assert forall|after: Self, v: V|
            after.keys() == before.keys() && #[trigger] after.values() == before.values().update(
                i,
                v,
            ) implies after.wf() && after@ == #[trigger] before@.insert(before.keys()[i], v) by {
            let m = before@.insert(before.keys()[i], v);
            before.lemma_entry_at(i);
            assert forall|k: Seq<char>| after@.contains_key(k) implies #[trigger] after@[k] == m[k] by {
                let p = after.place_of(k);
                assert(before.keys()[p] == k);
                lemma_sorted_keys_distinct(before.keys(), p, before.place_of(k));
                if p == i {
                } else {
                    assert(k != before.keys()[i]) by {
                        if k == before.keys()[i] {
                            lemma_sorted_keys_distinct(before.keys(), p, i);
                        }
                    }
                }
            }
            assert(after@ =~= m);
        }
    }

    /// Adds an entry under a key that the map does not hold yet. The entry
    /// takes its place among the keys; the others keep their order.
    pub fn insert(&mut self, key: String, value: V)
        requires
            old(self).wf(),
            !old(self)@.contains_key(key@),
        ensures
            final(self).wf(),
            final(self)@ == old(self)@.insert(key@, value),
            exists|p: int|
                0 <= p <= old(self).keys().len() && final(self).keys() == #[trigger] old(self).keys().insert(
                    p,
                    key@,
                ) && final(self).values() == old(self).values().insert(p, value),
    {
        let mut p: usize = 0;
        while p < self.keys.len() && str_lt(self.keys[p].as_str(), key.as_str())
            invariant
                p <= self.keys.len(),
                self.wf(),
                forall|j: int| 0 <= j < p ==> text_lt(#[trigger] self.keys()[j], key@),
            decreases self.keys.len() - p,
        {
            p += 1;
        }
        let ghost before = *self;
        proof {
            assert forall|j: int| p <= j < before.keys().len() implies text_lt(
                key@,
                #[trigger] before.keys()[j],
            ) by {
                let at = before.keys()[p as int];
                assert(before.keys().contains(before.keys()[j]));
                assert(before.keys().contains(at));
                assert(at != key@);
                lemma_text_lt_total(key@, at);
                if j > p {
                    lemma_text_lt_transitive(key@, at, before.keys()[j]);
                }
            }
        }
        self.keys.insert(p, key);
        self.values.insert(p, value);
        proof {
            let ks = before.keys().insert(p as int, key@);
            assert(self.keys() =~= ks);
            assert(keys_sorted(ks)) by {
                assert forall|i: int, j: int| 0 <= i < j < ks.len() implies text_lt(
                    #[trigger] ks[i],
                    #[trigger] ks[j],
                ) by {
                    if j < p {
                    } else if j == p {
                    } else if i < p {
                        assert(ks[j] == before.keys()[j - 1]);
                        if j - 1 == i {
                            lemma_text_lt_transitive(ks[i], key@, ks[j]);
                        }
                    } else if i == p {
                        assert(ks[j] == before.keys()[j - 1]);
                    } else {
                        assert(ks[i] == before.keys()[i - 1]);
                        assert(ks[j] == before.keys()[j - 1]);
                    }
                }
            }
            let m = before@.insert(key@, value);
            assert forall|k: Seq<char>| self@.contains_key(k) == m.contains_key(k) by {
                if self.keys().contains(k) {
                    let q = self.keys().index_of(k);
                    if q < p {
                        assert(before.keys()[q] == k);
                    } else if q > p {
                        assert(before.keys()[q - 1] == k);
                    }
                }
                if before.keys().contains(k) {
                    let q = before.keys().index_of(k);
                    if q < p {
                        assert(ks[q] == k);
                    } else {
                        assert(ks[q + 1] == k);
                    }
                }
                if k == key@ {
                    assert(ks[p as int] == k);
                }
            }
            assert forall|k: Seq<char>| self@.contains_key(k) implies #[trigger] self@[k] == m[k] by {
                let q = self.place_of(k);
                if q == p {
                } else if q < p {
                    assert(before.keys()[q] == k);
                    before.lemma_entry_at(q);
                } else {
                    assert(before.keys()[q - 1] == k);
                    before.lemma_entry_at(q - 1);
                }
            }
            assert(self@ =~= m);
        }
    }
}

impl<V> NameMap<V> {
    /// Puts a value under a key, in place of the value that the key had or
    /// as a new entry.
    pub fn put(&mut self, key: String, value: V)
        requires
            old(self).wf(),
        ensures
            final(self).wf(),
            final(self)@ == old(self)@.insert(key@, value),
    {
        match self.position(key.as_str()) {
            Some(i) => {
                let slot = self.value_at_mut(i);
                *slot = value;
            },
            None => {
                self.insert(key, value);
            },
        }
    }
}

/// The items of a list in the opposite order.
pub fn reversed<T>(items: Vec<T>) -> (r: Vec<T>)
    ensures
        r@ == items@.reverse(),
{
    let ghost all = items@;
    let mut items = items;
    let mut out: Vec<T> = Vec::new();
    while items.len() > 0
        invariant
            items@.len() + out@.len() == all.len(),
            items@ == all.take(items@.len() as int),
            forall|i: int| 0 <= i < out@.len() ==> out@[i] == all[all.len() - 1 - i],
        decreases items@.len(),
    {
        let item = items.pop().unwrap();
        out.push(item);
        assert(items@ =~= all.take(items@.len() as int));
    }
    assert(out@ =~= all.reverse());
    out
}

} // verus!
