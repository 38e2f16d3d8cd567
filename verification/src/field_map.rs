//! A map from field names to texts, the "sparse" result of invoice parsing.

use vstd::prelude::*;
use crate::text::{str_eq, strs_of};

verus! {

/// No key occurs twice.
pub open spec fn keys_distinct(e: Seq<(String, String)>) -> bool {
    forall|i: int, j: int| 0 <= i < j < e.len() ==> e[i].0@ != e[j].0@
}

/// The map the entries describe (later entries win).
pub open spec fn map_of(e: Seq<(String, String)>) -> Map<Seq<char>, Seq<char>>
    decreases e.len(),
{
    if e.len() == 0 {
        Map::empty()
    } else {
        map_of(e.drop_last()).insert(e.last().0@, e.last().1@)
    }
}

proof fn lemma_map_of(e: Seq<(String, String)>)
    requires
        keys_distinct(e),
    ensures
        forall|k: Seq<char>|
            #![trigger map_of(e).contains_key(k)]
            map_of(e).contains_key(k) <==> exists|i: int| 0 <= i < e.len() && e[i].0@ == k,
        forall|i: int| 0 <= i < e.len() ==> map_of(e)[#[trigger] e[i].0@] == e[i].1@,
    decreases e.len(),
{
    if e.len() > 0 {
        let p = e.drop_last();
        assert(keys_distinct(p));
        lemma_map_of(p);
        assert forall|k: Seq<char>| #![trigger map_of(e).contains_key(k)]
            map_of(e).contains_key(k) <==> exists|i: int| 0 <= i < e.len() && e[i].0@ == k by {
            if k == e.last().0@ {
                assert(e[e.len() - 1].0@ == k);
            } else {
                if map_of(e).contains_key(k) {
                    assert(map_of(p).contains_key(k));
                    let i = choose|i: int| 0 <= i < p.len() && p[i].0@ == k;
                    assert(e[i] == p[i]);
                }
                if exists|i: int| 0 <= i < e.len() && e[i].0@ == k {
                    let i = choose|i: int| 0 <= i < e.len() && e[i].0@ == k;
                    assert(i < e.len() - 1);
                    assert(p[i] == e[i]);
                    assert(map_of(p).contains_key(k));
                }
            }
        }
        assert forall|i: int| 0 <= i < e.len() implies map_of(e)[#[trigger] e[i].0@] == e[i].1@ by {
            if i < e.len() - 1 {
                assert(p[i] == e[i]);
                assert(e[i].0@ != e.last().0@);
            }
        }
    }
}

/// A map from field names to texts.
pub struct FieldMap {
    entries: Vec<(String, String)>,
}

impl View for FieldMap {
    type V = Map<Seq<char>, Seq<char>>;

    closed spec fn view(&self) -> Map<Seq<char>, Seq<char>> {
        map_of(self.entries@)
    }
}

impl FieldMap {
    #[verifier::type_invariant]
    spec fn inv(self) -> bool {
        keys_distinct(self.entries@)
    }

    /// An empty map.
    pub fn new() -> (m: FieldMap)
        ensures
            m@ == Map::<Seq<char>, Seq<char>>::empty(),
    {
        FieldMap { entries: Vec::new() }
    }

    /// The position of `key` among the entries.
    fn find(&self, key: &str) -> (r: Option<usize>)
        ensures
            match r {
                Some(i) => i < self.entries@.len() && self.entries@[i as int].0@ == key@,
                None => forall|i: int| 0 <= i < self.entries@.len() ==> self.entries@[i].0@ != key@,
            },
    {
        let mut i: usize = 0;
        while i < self.entries.len()
            invariant
                i <= self.entries@.len(),
                forall|j: int| 0 <= j < i ==> self.entries@[j].0@ != key@,
            decreases self.entries.len() - i,
        {
            if str_eq(self.entries[i].0.as_str(), key) {
                return Some(i);
            }
            i += 1;
        }
        None
    }

    /// The text stored under `key`.
    pub fn get(&self, key: &str) -> (r: Option<&String>)
        ensures
            r is Some <==> self@.contains_key(key@),
            r matches Some(v) ==> v@ == self@[key@],
    {
        proof {
            use_type_invariant(self);
            lemma_map_of(self.entries@);
        }
        match self.find(key) {
            Some(i) => Some(&self.entries[i].1),
            None => None,
        }
    }

    /// Whether `key` has a text.
    pub fn contains_key(&self, key: &str) -> (r: bool)
        ensures
            r == self@.contains_key(key@),
    {
        self.get(key).is_some()
    }

    /// The text stored under `key`, or the empty text.
    pub fn get_or_empty(&self, key: &str) -> (r: String)
        ensures
            r@ == (if self@.contains_key(key@) {
                self@[key@]
            } else {
                Seq::empty()
            }),
    {
        match self.get(key) {
            Some(v) => v.clone(),
            None => String::new(),
        }
    }

    /// Stores `value` under `key`, replacing any earlier text.
    pub fn insert(&mut self, key: String, value: String)
        ensures
            final(self)@ == old(self)@.insert(key@, value@),
    {
        proof {
            use_type_invariant(&*self);
            lemma_map_of(self.entries@);
        }
        let ghost old_e = self.entries@;
        match self.find(key.as_str()) {
            Some(i) => {
                let ghost k = key@;
                let ghost v = value@;
                let mut entries: Vec<(String, String)> = Vec::new();
                std::mem::swap(&mut entries, &mut self.entries);
                entries.set(i, (key, value));
                proof {
                    let e = entries@;
                    assert(keys_distinct(e));
                    lemma_map_of(e);
                    assert(map_of(e) =~= map_of(old_e).insert(k, v)) by {
                        assert forall|q: Seq<char>| map_of(e).contains_key(q) <==> map_of(
                            old_e,
                        ).insert(k, v).contains_key(q) by {
                            if q == k {
                                assert(e[i as int].0@ == k);
                                assert(map_of(e).contains_key(q));
                            } else {
                                if map_of(old_e).contains_key(q) {
                                    let j = choose|j: int| 0 <= j < old_e.len() && old_e[j].0@ == q;
                                    assert(j != i);
                                    assert(e[j] == old_e[j]);
                                    assert(map_of(e).contains_key(q));
                                }
                                if map_of(e).contains_key(q) {
                                    let j = choose|j: int| 0 <= j < e.len() && e[j].0@ == q;
                                    assert(j != i);
                                    assert(e[j] == old_e[j]);
                                    assert(map_of(old_e).contains_key(q));
                                }
                            }
                        }
                        assert forall|q: Seq<char>| #[trigger]
                            map_of(e).contains_key(q) implies map_of(e)[q] == map_of(
                            old_e,
                        ).insert(k, v)[q] by {
                            let j = choose|j: int| 0 <= j < e.len() && e[j].0@ == q;
                            if j != i {
                                assert(e[j] == old_e[j]);
                                assert(map_of(old_e)[old_e[j].0@] == old_e[j].1@);
                            }
                        }
                    }
                }
                self.entries = entries;
            },
            None => {
                let mut entries: Vec<(String, String)> = Vec::new();
                std::mem::swap(&mut entries, &mut self.entries);
                entries.push((key, value));
                proof {
                    assert(entries@.drop_last() == old_e);
                    assert(keys_distinct(entries@));
                }
                self.entries = entries;
            },
        }
    }

    /// Stores `value` under `key` unless `key` already has a text.
    pub fn insert_if_absent(&mut self, key: String, value: String)
        ensures
            final(self)@ == (if old(self)@.contains_key(key@) {
                old(self)@
            } else {
                old(self)@.insert(key@, value@)
            }),
    {
        if !self.contains_key(key.as_str()) {
            self.insert(key, value);
        }
    }

    /// The number of keys.
    pub fn len(&self) -> (n: usize)
        ensures
            n == self@.dom().len(),
    {
        proof {
            use_type_invariant(self);
            lemma_map_of(self.entries@);
            lemma_dom_len(self.entries@);
        }
        self.entries.len()
    }

    /// The keys, each once.
    pub fn keys(&self) -> (r: Vec<String>)
        ensures
            forall|i: int| 0 <= i < r@.len() ==> self@.contains_key(#[trigger] r@[i]@),
            forall|k: Seq<char>| self@.contains_key(k) ==> strs_of(r@).contains(k),
            forall|i: int, j: int| 0 <= i < j < r@.len() ==> r@[i]@ != r@[j]@,
    {
        proof {
            use_type_invariant(self);
            lemma_map_of(self.entries@);
        }
        let mut r: Vec<String> = Vec::new();
        let mut i: usize = 0;
        while i < self.entries.len()
            invariant
                i <= self.entries@.len(),
                keys_distinct(self.entries@),
                r@.len() == i,
                forall|j: int| 0 <= j < i ==> #[trigger] r@[j]@ == self.entries@[j].0@,
            decreases self.entries.len() - i,
        {
            r.push(self.entries[i].0.clone());
            i += 1;
        }
        assert forall|k: Seq<char>| self@.contains_key(k) implies strs_of(r@).contains(k) by {
            let j = choose|j: int| 0 <= j < self.entries@.len() && self.entries@[j].0@ == k;
            assert(strs_of(r@)[j] == k);
        }
        r
    }
}

proof fn lemma_dom_len(e: Seq<(String, String)>)
    requires
        keys_distinct(e),
    ensures
        map_of(e).dom().len() == e.len(),
        map_of(e).dom().finite(),
    decreases e.len(),
{
    if e.len() > 0 {
        let p = e.drop_last();
        assert(keys_distinct(p));
        lemma_dom_len(p);
        lemma_map_of(p);
        assert(!map_of(p).contains_key(e.last().0@)) by {
            if map_of(p).contains_key(e.last().0@) {
                let i = choose|i: int| 0 <= i < p.len() && p[i].0@ == e.last().0@;
                assert(e[i] == p[i]);
            }
        }
    }
}

} // verus!
