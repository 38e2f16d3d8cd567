//! A map from table columns to the detail field they hold.

use vstd::prelude::*;
use std::collections::HashMap;
use vstd::std_specs::iter::IteratorSpec;

verus! {

broadcast use vstd::std_specs::hash::group_hash_axioms;

/// A map from column numbers to field names, kept in a std `HashMap`.
pub struct ColumnMap {
    m: HashMap<usize, String>,
}

impl View for ColumnMap {
    type V = Map<usize, Seq<char>>;

    closed spec fn view(&self) -> Map<usize, Seq<char>> {
        self.m@.map_values(|v: String| v@)
    }
}

impl ColumnMap {
    /// An empty map.
    pub fn new() -> (m: ColumnMap)
        ensures
            m@ == Map::<usize, Seq<char>>::empty(),
    {
        let m = ColumnMap { m: HashMap::new() };
        assert(m@ =~= Map::<usize, Seq<char>>::empty());
        m
    }

    /// The text stored under `key`.
    pub fn get(&self, key: usize) -> (r: Option<&String>)
        ensures
            r is Some <==> self@.contains_key(key),
            r matches Some(v) ==> v@ == self@[key],
    {
        self.m.get(&key)
    }

    /// Whether `key` has a text.
    pub fn contains_key(&self, key: &usize) -> (r: bool)
        ensures
            r == self@.contains_key(*key),
    {
        self.m.contains_key(key)
    }

    /// Stores `value` under `key`, replacing any earlier text.
    pub fn insert(&mut self, key: usize, value: String)
        ensures
            final(self)@ == old(self)@.insert(key, value@),
    {
        let ghost v = value@;
        self.m.insert(key, value);
        assert(self@ =~= old(self)@.insert(key, v));
    }

    /// Stores `value` under `key` unless `key` already has a text.
    pub fn insert_if_absent(&mut self, key: usize, value: String)
        ensures
            final(self)@ == (if old(self)@.contains_key(key) {
                old(self)@
            } else {
                old(self)@.insert(key, value@)
            }),
    {
        if !self.contains_key(&key) {
            self.insert(key, value);
        }
    }

    /// The number of keys.
    pub fn len(&self) -> (n: usize)
        ensures
            n == self@.dom().len(),
    {
        assert(self@.dom() =~= self.m@.dom());
        self.m.len()
    }

    /// The keys, each once.
    pub fn keys(&self) -> (r: Vec<usize>)
        ensures
            forall|i: int| 0 <= i < r@.len() ==> self@.contains_key(#[trigger] r@[i]),
            forall|k: usize| self@.contains_key(k) ==> r@.contains(k),
            forall|i: int, j: int| 0 <= i < j < r@.len() ==> r@[i] != r@[j],
    {
        let mut r: Vec<usize> = Vec::new();
        let ghost ks = vstd::std_specs::hash::spec_keys_iter(&self.m).remaining().unref();
        assert(ks.to_set() == self.m@.dom());
        assert(ks.no_duplicates());
        for k in it: self.m.keys()
            invariant
                ks == it.seq().unref(),
                ks.to_set() == self.m@.dom(),
                ks.no_duplicates(),
                r@ == ks.take(it.index() as int),
        {
            proof {
                assert(ks.take(it.index() + 1) =~= ks.take(it.index() as int).push(*k));
            }
            r.push(*k);
        }
        proof {
            assert(r@ =~= ks);
            assert forall|i: int| 0 <= i < r@.len() implies self@.contains_key(#[trigger] r@[i]) by {
                assert(ks.to_set().contains(ks[i]));
            }
            assert forall|k: usize| self@.contains_key(k) implies r@.contains(k) by {
                assert(ks.to_set().contains(k));
            }
        }
        r
    }
}

} // verus!
