//! A map from names to values that keeps its names in ascending order, as
//! a sorted tree map keyed by strings does.

use vstd::prelude::*;
use crate::text::{chars_of, chars_less, name_lt, lemma_name_lt_total, lemma_name_lt_transitive, lemma_name_lt_irreflexive};

verus! {

/// Names and their values, the names strictly ascending.
pub struct KeyMap<V> {
    names: Vec<String>,
    values: Vec<V>,
}

impl<V> KeyMap<V> {
    /// The names, in ascending order.
    pub closed spec fn keys(&self) -> Seq<Seq<char>> {
        self.names@.map_values(|s: String| s@)
    }

    /// The values, in the order of their names.
    pub closed spec fn vals(&self) -> Seq<V> {
        self.values@
    }

    /// The names ascend strictly and every name has one value.
    pub open spec fn wf(&self) -> bool {
        &&& self.keys().len() == self.vals().len()
        &&& forall|i: int, j: int|
            0 <= i < j < self.keys().len() ==> name_lt(#[trigger] self.keys()[i], #[trigger] self.keys()[j])
    }

    /// The position of a name that is present.
    pub open spec fn pos(&self, k: Seq<char>) -> int {
        choose|i: int| 0 <= i < self.keys().len() && self.keys()[i] == k
    }

    /// The map as a mathematical map from names to values.
    pub open spec fn as_map(&self) -> Map<Seq<char>, V> {
        Map::new(|k: Seq<char>| self.keys().contains(k), |k: Seq<char>| self.vals()[self.pos(k)])
    }

    /// In a well-formed map a name stands at one position only.
    pub proof fn lemma_pos(&self, i: int)
        requires
            self.wf(),
            0 <= i < self.keys().len(),
        ensures
            self.pos(self.keys()[i]) == i,
            self.keys().contains(self.keys()[i]),
            self.as_map().contains_key(self.keys()[i]),
            self.as_map()[self.keys()[i]] == self.vals()[i],
    {
        let k = self.keys()[i];
        assert(self.keys()[i] == k);
        let p = self.pos(k);
        if p != i {
            if p < i {
                assert(name_lt(self.keys()[p], self.keys()[i]));
            } else {
                assert(name_lt(self.keys()[i], self.keys()[p]));
            }
            lemma_name_lt_irreflexive(k);
        }
    }

    /// An empty map.
    pub fn new() -> (m: Self)
        ensures
            m.wf(),
            m.keys().len() == 0,
            m.as_map() == Map::<Seq<char>, V>::empty(),
    {
        let m = KeyMap { names: Vec::new(), values: Vec::new() };
        assert(m.as_map() =~= Map::<Seq<char>, V>::empty());
        m
    }

    /// The number of names.
    pub fn len(&self) -> (n: usize)
        requires
            self.wf(),
        ensures
            n == self.keys().len(),
    {
        self.names.len()
    }

    /// The `i`-th name, in ascending order.
    pub fn name_at(&self, i: usize) -> (s: &String)
        requires
            self.wf(),
            i < self.keys().len(),
        ensures
            s@ == self.keys()[i as int],
    {
        &self.names[i]
    }

    /// The value of the `i`-th name.
    pub fn value_at(&self, i: usize) -> (v: &V)
        requires
            self.wf(),
            i < self.keys().len(),
        ensures
            *v == self.vals()[i as int],
    {
        &self.values[i]
    }

    /// The value of the `i`-th name, for change in place.
    pub fn value_at_mut(&mut self, i: usize) -> (v: &mut V)
        requires
            old(self).wf(),
            i < old(self).keys().len(),
        ensures
            *v == old(self).vals()[i as int],
            final(self).keys() == old(self).keys(),
            final(self).vals() == old(self).vals().update(i as int, *final(v)),
    {
        &mut self.values[i]
    }

    /// Where `name` stands, if it is present.
    pub fn position(&self, name: &str) -> (r: Option<usize>)
        requires
            self.wf(),
        ensures
            match r {
                Some(i) => i < self.keys().len() && self.keys()[i as int] == name@,
                None => !self.keys().contains(name@),
            },
    {
        let target: String = name.to_owned();
        let mut i: usize = 0;
        while i < self.names.len()
            invariant
                self.wf(),
                target@ == name@,
                i <= self.names.len(),
                forall|j: int| 0 <= j < i ==> self.keys()[j] != name@,
            decreases self.names.len() - i,
        {
            if self.names[i] == target {
                return Some(i);
            }
            i += 1;
        }
        None
    }

    /// The value of `name`, if it is present.
    pub fn get(&self, name: &str) -> (r: Option<&V>)
        requires
            self.wf(),
        ensures
            match r {
                Some(v) => self.as_map().contains_key(name@) && *v == self.as_map()[name@],
                None => !self.as_map().contains_key(name@),
            },
    {
        match self.position(name) {
            Some(i) => {
                proof { self.lemma_pos(i as int); }
                Some(&self.values[i])
            },
            None => None,
        }
    }

    /// The names, in ascending order.
    pub fn key_list(&self) -> (v: Vec<String>)
        requires
            self.wf(),
        ensures
            v@.len() == self.keys().len(),
            forall|j: int| 0 <= j < v@.len() ==> #[trigger] v@[j]@ == self.keys()[j],
    {
        let mut v: Vec<String> = Vec::new();
        let mut i: usize = 0;
        while i < self.names.len()
            invariant
                i <= self.names.len(),
                v@.len() == i,
                self.keys().len() == self.names.len(),
                forall|j: int| 0 <= j < i ==> #[trigger] v@[j]@ == self.keys()[j],
            decreases self.names.len() - i,
        {
            let c = self.names[i].clone();
            assert(c@ == self.keys()[i as int]);
            v.push(c);
            i += 1;
        }
        v
    }

    /// Removes every name.
    pub fn clear(&mut self)
        ensures
            final(self).wf(),
            final(self).keys().len() == 0,
            final(self).as_map() == Map::<Seq<char>, V>::empty(),
    {
        self.names.clear();
        self.values.clear();
        assert(self.as_map() =~= Map::<Seq<char>, V>::empty());
    }

    /// Gives `name` the value `v`, in place of any value it had.
    pub fn insert(&mut self, name: String, v: V)
        requires
            old(self).wf(),
        ensures
            final(self).wf(),
            final(self).as_map() == old(self).as_map().insert(name@, v),
            old(self).keys().contains(name@) ==> final(self).keys() == old(self).keys(),
            !old(self).keys().contains(name@) ==> final(self).keys().len() == old(self).keys().len() + 1,
    {
        let ghost old_keys = self.keys();
        let ghost old_vals = self.vals();
        let ghost old_map = self.as_map();
        let nc = chars_of(name.as_str());
        let mut i: usize = 0;
        loop
            invariant
                self.wf(),
                self.keys() == old_keys,
                self.vals() == old_vals,
                nc@ == name@,
                i <= self.names.len(),
                forall|j: int| 0 <= j < i ==> name_lt(#[trigger] old_keys[j], name@),
            ensures
                self.wf(),
                self.keys() == old_keys,
                self.vals() == old_vals,
                i <= self.names.len(),
                forall|j: int| 0 <= j < i ==> name_lt(#[trigger] old_keys[j], name@),
                i == self.names.len() || !name_lt(old_keys[i as int], name@),
            decreases self.names.len() - i,
        {
            if i == self.names.len() {
                break;
            }
            let kc = chars_of(self.names[i].as_str());
            if chars_less(&kc, &nc) {
                i += 1;
            } else {
                break;
            }
        }
        if i < self.names.len() && self.names[i] == name {
            self.names.set(i, name);
            self.values.set(i, v);
            proof {
                assert(self.keys() =~= old_keys);
                assert(old_keys[i as int] == name@);
                assert(old_keys.contains(name@));
                self.lemma_pos(i as int);
                assert forall|k: Seq<char>| #![auto] self.as_map().contains_key(k) == old_map.insert(name@, v).contains_key(k) by {
                    assert(self.as_map().contains_key(k) == self.keys().contains(k));
                    assert(old_map.contains_key(k) == old_keys.contains(k));
                }
                assert forall|k: Seq<char>| #![auto] self.as_map().contains_key(k) implies self.as_map()[k] == old_map.insert(name@, v)[k] by {
                    let p = self.keys().index_of(k);
                    self.lemma_pos(p);
                    if k != name@ {
                        old(self).lemma_pos(p);
                    }
                }
                assert(self.as_map() =~= old_map.insert(name@, v));
            }
        } else {
            proof {
                if i < old_keys.len() {
                    lemma_name_lt_total(old_keys[i as int], name@);
                    assert(name_lt(name@, old_keys[i as int]));
                }
                assert forall|j: int| i <= j < old_keys.len() implies name_lt(name@, #[trigger] old_keys[j]) by {
                    if j > i {
                        lemma_name_lt_transitive(name@, old_keys[i as int], old_keys[j]);
                    }
                }
                assert(!old_keys.contains(name@)) by {
                    if old_keys.contains(name@) {
                        let p = old_keys.index_of(name@);
                        lemma_name_lt_irreflexive(name@);
                    }
                }
            }
            self.names.insert(i, name);
            self.values.insert(i, v);
            proof {
                assert(self.keys() =~= old_keys.insert(i as int, name@));
                assert(self.vals() =~= old_vals.insert(i as int, v));
                assert forall|a: int, b: int| 0 <= a < b < self.keys().len() implies name_lt(#[trigger] self.keys()[a], #[trigger] self.keys()[b]) by {
                    if a < i && b > i {
                        lemma_name_lt_transitive(old_keys[a], name@, old_keys[b - 1]);
                    }
                }
                assert forall|k: Seq<char>| #![auto] self.as_map().contains_key(k) == old_map.insert(name@, v).contains_key(k) by {
                    assert(self.as_map().contains_key(k) == self.keys().contains(k));
                    assert(old_map.contains_key(k) == old_keys.contains(k));
                    assert(self.keys()[i as int] == name@);
                    if old_keys.contains(k) {
                        let p = old_keys.index_of(k);
                        if p < i {
                            assert(self.keys()[p] == k);
                        } else {
                            assert(self.keys()[p + 1] == k);
                        }
                    }
                    if self.keys().contains(k) && k != name@ {
                        let p = self.keys().index_of(k);
                        if p < i {
                            assert(old_keys[p] == k);
                        } else {
                            assert(old_keys[p - 1] == k);
                        }
                    }
                }
                assert forall|k: Seq<char>| #![auto] self.as_map().contains_key(k) implies self.as_map()[k] == old_map.insert(name@, v)[k] by {
                    let p = self.keys().index_of(k);
                    self.lemma_pos(p);
                    if p < i {
                        old(self).lemma_pos(p);
                    } else if p > i {
                        old(self).lemma_pos(p - 1);
                    }
                }
                assert(self.as_map() =~= old_map.insert(name@, v));
            }
        }
    }
}

} // verus!
