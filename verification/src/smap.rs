//! A map from string keys to values that keeps its entries sorted by key,
//! so that walking it yields keys in the same order as a `BTreeMap<String, _>`.
//!
//! vstd specifies `BTreeMap` and `HashMap` for keys whose ordering or
//! hashing it models; `String` keys are not among them, so the contents
//! after an insert and the order of the keys do not follow from it. Keeping
//! the entries in a vector sorted by the characters of the key lets every
//! operation state exactly what it does to the map and to the key order.

use vstd::prelude::*;

use crate::text::{chars_eq, chars_lex_lt, chars_of, lemma_lex_irreflexive, lemma_lex_total, lemma_lex_trans, lex_lt};

verus! {

/// The map an entry sequence denotes (later entries win on equal keys).
pub open spec fn map_of<V>(s: Seq<(Seq<char>, V)>) -> Map<Seq<char>, V>
    decreases s.len(),
{
    if s.len() == 0 {
        Map::empty()
    } else {
        map_of(s.drop_last()).insert(s.last().0, s.last().1)
    }
}

/// Keys strictly increase along the sequence.
pub open spec fn sorted_keys<V>(s: Seq<(Seq<char>, V)>) -> bool {
    forall|i: int, j: int| 0 <= i < j < s.len() ==> lex_lt(#[trigger] s[i].0, #[trigger] s[j].0)
}

/// The keys of an entry sequence, in order.
pub open spec fn keys_of<V>(s: Seq<(Seq<char>, V)>) -> Seq<Seq<char>> {
    s.map_values(|e: (Seq<char>, V)| e.0)
}

pub proof fn lemma_sorted_distinct<V>(s: Seq<(Seq<char>, V)>, i: int, j: int)
    requires
        sorted_keys(s),
        0 <= i < s.len(),
        0 <= j < s.len(),
        s[i].0 == s[j].0,
    ensures
        i == j,
{
    if i < j {
        lemma_lex_irreflexive(s[i].0);
    }
    if j < i {
        lemma_lex_irreflexive(s[i].0);
    }
}

pub proof fn lemma_map_of_all<V>(s: Seq<(Seq<char>, V)>)
    requires
        sorted_keys(s),
    ensures
        forall|i: int|
            0 <= i < s.len() ==> map_of(s).contains_key(#[trigger] s[i].0) && map_of(s)[s[i].0]
                == s[i].1,
        forall|k: Seq<char>|
            map_of(s).contains_key(k) ==> exists|i: int| 0 <= i < s.len() && #[trigger] s[i].0 == k,
    decreases s.len(),
{
    if s.len() > 0 {
        let t = s.drop_last();
        let n = s.len() - 1;
        assert forall|a: int, b: int| 0 <= a < b < t.len() implies lex_lt(
            #[trigger] t[a].0,
            #[trigger] t[b].0,
        ) by {
            assert(t[a] == s[a]);
            assert(t[b] == s[b]);
        }
        lemma_map_of_all(t);
        assert forall|i: int| 0 <= i < s.len() implies map_of(s).contains_key(#[trigger] s[i].0)
            && map_of(s)[s[i].0] == s[i].1 by {
            if i < n {
                assert(t[i] == s[i]);
                assert(lex_lt(s[i].0, s[n].0));
                if s[i].0 == s[n].0 {
                    lemma_lex_irreflexive(s[i].0);
                }
            }
        }
        assert forall|k: Seq<char>| map_of(s).contains_key(k) implies exists|i: int|
            0 <= i < s.len() && #[trigger] s[i].0 == k by {
            if k == s[n].0 {
                assert(s[n].0 == k);
            } else {
                assert(map_of(t).contains_key(k));
                let j = choose|j: int| 0 <= j < t.len() && #[trigger] t[j].0 == k;
                assert(s[j].0 == k);
            }
        }
    }
}

pub proof fn lemma_map_of_at<V>(s: Seq<(Seq<char>, V)>, i: int)
    requires
        sorted_keys(s),
        0 <= i < s.len(),
    ensures
        map_of(s).contains_key(s[i].0),
        map_of(s)[s[i].0] == s[i].1,
{
    lemma_map_of_all(s);
}

proof fn lemma_map_of_update<V>(s: Seq<(Seq<char>, V)>, i: int, v: V)
    requires
        sorted_keys(s),
        0 <= i < s.len(),
    ensures
        sorted_keys(s.update(i, (s[i].0, v))),
        map_of(s.update(i, (s[i].0, v))) == map_of(s).insert(s[i].0, v),
{
    let t = s.update(i, (s[i].0, v));
    assert forall|a: int, b: int| 0 <= a < b < t.len() implies lex_lt(#[trigger] t[a].0, #[trigger] t[b].0) by {
        assert(t[a].0 == s[a].0);
        assert(t[b].0 == s[b].0);
    }
    lemma_map_of_all(s);
    lemma_map_of_all(t);
    assert forall|k: Seq<char>| #[trigger] map_of(t).contains_key(k) == map_of(s).insert(s[i].0, v).contains_key(k) by {
        if map_of(s).contains_key(k) {
            let j = choose|j: int| 0 <= j < s.len() && #[trigger] s[j].0 == k;
            assert(t[j].0 == k);
        }
        if map_of(t).contains_key(k) {
            let j = choose|j: int| 0 <= j < t.len() && #[trigger] t[j].0 == k;
            assert(s[j].0 == k);
        }
    }
    assert forall|k: Seq<char>| #[trigger] map_of(t).contains_key(k) implies map_of(t)[k] == map_of(s).insert(s[i].0, v)[k] by {
        let j = choose|j: int| 0 <= j < t.len() && #[trigger] t[j].0 == k;
        assert(s[j].0 == k);
        if j == i {
        } else {
            assert(t[j].1 == s[j].1);
            if k == s[i].0 {
                lemma_sorted_distinct(s, i, j);
            }
        }
    }
    assert(map_of(t) =~= map_of(s).insert(s[i].0, v));
}

proof fn lemma_map_of_insert<V>(s: Seq<(Seq<char>, V)>, p: int, k: Seq<char>, v: V)
    requires
        sorted_keys(s),
        0 <= p <= s.len(),
        forall|j: int| 0 <= j < p ==> lex_lt(#[trigger] s[j].0, k),
        forall|j: int| p <= j < s.len() ==> lex_lt(k, #[trigger] s[j].0),
    ensures
        sorted_keys(s.insert(p, (k, v))),
        map_of(s.insert(p, (k, v))) == map_of(s).insert(k, v),
        !map_of(s).contains_key(k),
{
    let t = s.insert(p, (k, v));
    assert forall|a: int, b: int| 0 <= a < b < t.len() implies lex_lt(#[trigger] t[a].0, #[trigger] t[b].0) by {
        if b < p {
        } else if b == p {
        } else if a < p {
            assert(t[b].0 == s[b - 1].0);
            lemma_lex_trans(t[a].0, k, t[b].0);
        } else if a == p {
        } else {
            assert(t[a].0 == s[a - 1].0);
        }
    }
    lemma_map_of_all(s);
    lemma_map_of_all(t);
    assert(!map_of(s).contains_key(k)) by {
        if map_of(s).contains_key(k) {
            let j = choose|j: int| 0 <= j < s.len() && #[trigger] s[j].0 == k;
            lemma_lex_irreflexive(k);
        }
    }
    assert forall|q: Seq<char>| #[trigger] map_of(t).contains_key(q) == map_of(s).insert(k, v).contains_key(q) by {
        if map_of(s).contains_key(q) {
            let j = choose|j: int| 0 <= j < s.len() && #[trigger] s[j].0 == q;
            if j < p {
                assert(t[j].0 == q);
            } else {
                assert(t[j + 1].0 == q);
            }
        }
        if q == k {
            assert(t[p].0 == k);
        }
        if map_of(t).contains_key(q) {
            let j = choose|j: int| 0 <= j < t.len() && #[trigger] t[j].0 == q;
            if j < p {
                assert(s[j].0 == q);
            } else if j > p {
                assert(s[j - 1].0 == q);
            }
        }
    }
    assert forall|q: Seq<char>| #[trigger] map_of(t).contains_key(q) implies map_of(t)[q] == map_of(s).insert(k, v)[q] by {
        let j = choose|j: int| 0 <= j < t.len() && #[trigger] t[j].0 == q;
        if j < p {
            assert(s[j].0 == q);
            lemma_lex_irreflexive(k);
        } else if j > p {
            assert(s[j - 1].0 == q);
            lemma_lex_irreflexive(k);
        }
    }
    assert(map_of(t) =~= map_of(s).insert(k, v));
}

proof fn lemma_map_of_remove<V>(s: Seq<(Seq<char>, V)>, i: int)
    requires
        sorted_keys(s),
        0 <= i < s.len(),
    ensures
        sorted_keys(s.remove(i)),
        map_of(s.remove(i)) == map_of(s).remove(s[i].0),
{
    let t = s.remove(i);
    let k = s[i].0;
    assert forall|a: int, b: int| 0 <= a < b < t.len() implies lex_lt(#[trigger] t[a].0, #[trigger] t[b].0) by {
        if b < i {
        } else if a < i {
            assert(t[b].0 == s[b + 1].0);
        } else {
            assert(t[a].0 == s[a + 1].0);
            assert(t[b].0 == s[b + 1].0);
        }
    }
    lemma_map_of_all(s);
    lemma_map_of_all(t);
    assert forall|q: Seq<char>| #[trigger] map_of(t).contains_key(q) == map_of(s).remove(k).contains_key(q) by {
        if map_of(s).contains_key(q) && q != k {
            let j = choose|j: int| 0 <= j < s.len() && #[trigger] s[j].0 == q;
            if j < i {
                assert(t[j].0 == q);
            } else {
                assert(t[j - 1].0 == q);
            }
        }
        if map_of(t).contains_key(q) {
            let j = choose|j: int| 0 <= j < t.len() && #[trigger] t[j].0 == q;
            if j < i {
                assert(s[j].0 == q);
                if q == k {
                    lemma_sorted_distinct(s, i, j);
                }
            } else {
                assert(s[j + 1].0 == q);
                if q == k {
                    lemma_sorted_distinct(s, i, j + 1);
                }
            }
        }
    }
    assert forall|q: Seq<char>| #[trigger] map_of(t).contains_key(q) implies map_of(t)[q] == map_of(s).remove(k)[q] by {
        let j = choose|j: int| 0 <= j < t.len() && #[trigger] t[j].0 == q;
        if j < i {
            assert(s[j].0 == q);
        } else {
            assert(s[j + 1].0 == q);
        }
    }
    assert(map_of(t) =~= map_of(s).remove(k));
}

/// An entry sequence denotes the empty map exactly when it is empty.
pub proof fn lemma_map_of_empty<V>(s: Seq<(Seq<char>, V)>)
    ensures
        (s.len() == 0) == (map_of(s) == Map::<Seq<char>, V>::empty()),
{
    if s.len() == 0 {
        assert(map_of(s) =~= Map::<Seq<char>, V>::empty());
    } else {
        assert(map_of(s).contains_key(s.last().0));
    }
}

/// No key of a sorted sequence occurs before its own position.
pub proof fn lemma_prefix_lacks<V>(s: Seq<(Seq<char>, V)>, i: int)
    requires
        sorted_keys(s),
        0 <= i < s.len(),
    ensures
        !map_of(s.subrange(0, i)).contains_key(s[i].0),
        map_of(s.subrange(0, i + 1)) == map_of(s.subrange(0, i)).insert(s[i].0, s[i].1),
{
    let t = s.subrange(0, i);
    assert forall|a: int, b: int| 0 <= a < b < t.len() implies lex_lt(#[trigger] t[a].0, #[trigger] t[b].0) by {
        assert(t[a] == s[a]);
        assert(t[b] == s[b]);
    }
    lemma_map_of_all(t);
    if map_of(t).contains_key(s[i].0) {
        let j = choose|j: int| 0 <= j < t.len() && #[trigger] t[j].0 == s[i].0;
        assert(t[j] == s[j]);
        lemma_sorted_distinct(s, j, i);
    }
    assert(s.subrange(0, i + 1).drop_last() =~= t);
}

/// `k` is a key of `m` that comes before every other key.
pub open spec fn is_least_key<V>(m: Map<Seq<char>, V>, k: Seq<char>) -> bool {
    m.contains_key(k) && forall|j: Seq<char>| #[trigger] m.contains_key(j) ==> j == k || lex_lt(k, j)
}

/// The key that comes first in key order, when the map has one.
pub open spec fn least_key<V>(m: Map<Seq<char>, V>) -> Option<Seq<char>> {
    if exists|k: Seq<char>| is_least_key(m, k) {
        Some(choose|k: Seq<char>| is_least_key(m, k))
    } else {
        None
    }
}

pub proof fn lemma_least_key_unique<V>(m: Map<Seq<char>, V>, a: Seq<char>, b: Seq<char>)
    requires
        is_least_key(m, a),
        is_least_key(m, b),
    ensures
        a == b,
{
    if a != b {
        assert(m.contains_key(b));
        assert(m.contains_key(a));
        crate::text::lemma_lex_asym(a, b);
    }
}

/// Where a key is, or where it belongs.
pub enum Slot {
    Found(usize),
    Vacant(usize),
}

/// A string-keyed map whose entries stay sorted by key.
pub struct SortedMap<V> {
    entries: Vec<(String, V)>,
}

impl<V> SortedMap<V> {
    /// The entries, keys by their character view, in key order.
    pub closed spec fn seq(&self) -> Seq<(Seq<char>, V)> {
        self.entries@.map_values(|e: (String, V)| (e.0@, e.1))
    }

    pub open spec fn view(&self) -> Map<Seq<char>, V> {
        map_of(self.seq())
    }

    #[verifier::type_invariant]
    closed spec fn inv(&self) -> bool {
        sorted_keys(self.seq())
    }

    pub fn new() -> (m: Self)
        ensures
            m.seq() == Seq::<(Seq<char>, V)>::empty(),
            m@ == Map::<Seq<char>, V>::empty(),
    {
        let m = SortedMap { entries: Vec::new() };
        assert(m.seq() =~= Seq::<(Seq<char>, V)>::empty());
        assert(m@ =~= Map::<Seq<char>, V>::empty());
        m
    }

    pub fn len(&self) -> (n: usize)
        ensures
            n == self.seq().len(),
            sorted_keys(self.seq()),
    {
        proof {
            use_type_invariant(self);
        }
        self.entries.len()
    }

    /// Whether the map has no entries.
    pub fn is_empty(&self) -> (r: bool)
        ensures
            r == (self@ == Map::<Seq<char>, V>::empty()),
    {
        proof {
            lemma_map_of_empty(self.seq());
        }
        self.entries.len() == 0
    }

    pub fn key_at(&self, i: usize) -> (k: &String)
        requires
            i < self.seq().len(),
        ensures
            k@ == self.seq()[i as int].0,
            sorted_keys(self.seq()),
    {
        proof {
            use_type_invariant(self);
        }
        &self.entries[i].0
    }

    pub fn value_at(&self, i: usize) -> (v: &V)
        requires
            i < self.seq().len(),
        ensures
            *v == self.seq()[i as int].1,
            sorted_keys(self.seq()),
    {
        proof {
            use_type_invariant(self);
        }
        &self.entries[i].1
    }

    /// Facts that tie the entry sequence to the map view.
    pub fn check(&self)
        ensures
            sorted_keys(self.seq()),
            forall|i: int|
                0 <= i < self.seq().len() ==> self@.contains_key(#[trigger] self.seq()[i].0)
                    && self@[self.seq()[i].0] == self.seq()[i].1,
            forall|k: Seq<char>|
                self@.contains_key(k) ==> exists|i: int|
                    0 <= i < self.seq().len() && #[trigger] self.seq()[i].0 == k,
    {
        proof {
            use_type_invariant(self);
            lemma_map_of_all(self.seq());
        }
    }

    pub fn locate(&self, key: &[char]) -> (r: Slot)
        ensures
            sorted_keys(self.seq()),
            match r {
                Slot::Found(i) => i < self.seq().len() && self.seq()[i as int].0 == key@,
                Slot::Vacant(p) => p <= self.seq().len() && (forall|j: int|
                    0 <= j < p ==> lex_lt(#[trigger] self.seq()[j].0, key@)) && (forall|j: int|
                    p <= j < self.seq().len() ==> lex_lt(key@, #[trigger] self.seq()[j].0)),
            },
    {
        proof {
            use_type_invariant(self);
        }
        let mut i: usize = 0;
        while i < self.entries.len()
            invariant
                i <= self.entries.len(),
                sorted_keys(self.seq()),
                self.seq().len() == self.entries.len(),
                forall|j: int| 0 <= j < i ==> lex_lt(#[trigger] self.seq()[j].0, key@),
            decreases self.entries.len() - i,
        {
            let kv = chars_of(self.entries[i].0.as_str());
            assert(kv@ == self.seq()[i as int].0);
            if chars_eq(&kv, key) {
                return Slot::Found(i);
            }
            if chars_lex_lt(key, &kv) {
                proof {
                    assert forall|j: int| i <= j < self.seq().len() implies lex_lt(
                        key@,
                        #[trigger] self.seq()[j].0,
                    ) by {
                        if j > i {
                            lemma_lex_trans(key@, self.seq()[i as int].0, self.seq()[j].0);
                        }
                    }
                }
                return Slot::Vacant(i);
            }
            proof {
                lemma_lex_total(kv@, key@);
            }
            i = i + 1;
        }
        Slot::Vacant(i)
    }

    pub fn get(&self, key: &str) -> (r: Option<&V>)
        ensures
            match r {
                Some(v) => self@.contains_key(key@) && *v == self@[key@],
                None => !self@.contains_key(key@),
            },
    {
        let k = chars_of(key);
        match self.locate(&k) {
            Slot::Found(i) => {
                proof {
                    lemma_map_of_at(self.seq(), i as int);
                }
                Some(&self.entries[i].1)
            },
            Slot::Vacant(p) => {
                proof {
                    lemma_map_of_all(self.seq());
                    if self@.contains_key(key@) {
                        let j = choose|j: int|
                            0 <= j < self.seq().len() && #[trigger] self.seq()[j].0 == key@;
                        lemma_lex_irreflexive(key@);
                    }
                }
                None
            },
        }
    }

    /// The key that comes first in key order.
    pub fn first_key(&self) -> (r: Option<&String>)
        ensures
            match r {
                Some(k) => least_key(self@) == Some(k@),
                None => self@ == Map::<Seq<char>, V>::empty() && least_key(self@) is None,
            },
    {
        proof {
            use_type_invariant(self);
            lemma_map_of_all(self.seq());
            lemma_map_of_empty(self.seq());
        }
        if self.entries.len() == 0 {
            proof {
                assert(!exists|k: Seq<char>| is_least_key(self@, k));
            }
            None
        } else {
            let k = &self.entries[0].0;
            proof {
                let s = self.seq();
                assert(s[0].0 == k@);
                assert forall|j: Seq<char>| #[trigger] self@.contains_key(j) implies j == k@ || lex_lt(
                    k@,
                    j,
                ) by {
                    let i = choose|i: int| 0 <= i < s.len() && #[trigger] s[i].0 == j;
                    if i > 0 {
                        assert(lex_lt(s[0].0, s[i].0));
                    }
                }
                assert(is_least_key(self@, k@));
                let c = choose|c: Seq<char>| is_least_key(self@, c);
                lemma_least_key_unique(self@, c, k@);
            }
            Some(k)
        }
    }

    pub fn contains_key(&self, key: &str) -> (r: bool)
        ensures
            r == self@.contains_key(key@),
    {
        self.get(key).is_some()
    }

    pub fn insert(&mut self, key: String, value: V)
        ensures
            final(self)@ == old(self)@.insert(key@, value),
    {
        let k = chars_of(key.as_str());
        match self.locate(&k) {
            Slot::Found(i) => {
                proof {
                    lemma_map_of_update(self.seq(), i as int, value);
                }
                let ghost s0 = self.seq();
                let mut entries: Vec<(String, V)> = Vec::new();
                std::mem::swap(&mut entries, &mut self.entries);
                entries.set(i, (key, value));
                proof {
                    assert(entries@.map_values(|e: (String, V)| (e.0@, e.1)) =~= s0.update(
                        i as int,
                        (s0[i as int].0, value),
                    ));
                }
                self.entries = entries;
            },
            Slot::Vacant(p) => {
                proof {
                    lemma_map_of_insert(self.seq(), p as int, key@, value);
                }
                let ghost s0 = self.seq();
                let mut entries: Vec<(String, V)> = Vec::new();
                std::mem::swap(&mut entries, &mut self.entries);
                entries.insert(p, (key, value));
                proof {
                    assert(entries@.map_values(|e: (String, V)| (e.0@, e.1)) =~= s0.insert(
                        p as int,
                        (key@, value),
                    ));
                }
                self.entries = entries;
            },
        }
    }

    pub fn remove(&mut self, key: &str) -> (r: Option<V>)
        ensures
            final(self)@ == old(self)@.remove(key@),
            match r {
                Some(v) => old(self)@.contains_key(key@) && v == old(self)@[key@],
                None => !old(self)@.contains_key(key@),
            },
    {
        let k = chars_of(key);
        match self.locate(&k) {
            Slot::Found(i) => {
                proof {
                    lemma_map_of_remove(self.seq(), i as int);
                    lemma_map_of_at(self.seq(), i as int);
                }
                let ghost s0 = self.seq();
                let mut entries: Vec<(String, V)> = Vec::new();
                std::mem::swap(&mut entries, &mut self.entries);
                let (_, v) = entries.remove(i);
                proof {
                    assert(entries@.map_values(|e: (String, V)| (e.0@, e.1)) =~= s0.remove(
                        i as int,
                    ));
                }
                self.entries = entries;
                Some(v)
            },
            Slot::Vacant(p) => {
                proof {
                    lemma_map_of_all(self.seq());
                    if self@.contains_key(key@) {
                        let j = choose|j: int|
                            0 <= j < self.seq().len() && #[trigger] self.seq()[j].0 == key@;
                        lemma_lex_irreflexive(key@);
                    }
                    assert(self@.remove(key@) =~= self@);
                }
                None
            },
        }
    }
}

} // verus!
