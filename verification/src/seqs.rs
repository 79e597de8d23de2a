//! First-match search over sequences.

use vstd::prelude::*;

verus! {

/// Index of the first element satisfying `p`.
pub open spec fn first_index<A>(s: Seq<A>, p: spec_fn(A) -> bool) -> Option<int>
    decreases s.len(),
{
    if s.len() == 0 {
        None
    } else if p(s[0]) {
        Some(0)
    } else {
        match first_index(s.drop_first(), p) {
            Some(k) => Some(k + 1),
            None => None,
        }
    }
}

pub proof fn lemma_first_index<A>(s: Seq<A>, p: spec_fn(A) -> bool)
    ensures
        match first_index(s, p) {
            Some(i) => 0 <= i < s.len() && p(s[i]) && forall|j: int| 0 <= j < i ==> !p(#[trigger] s[j]),
            None => forall|j: int| 0 <= j < s.len() ==> !p(#[trigger] s[j]),
        },
    decreases s.len(),
{
    if s.len() > 0 && !p(s[0]) {
        lemma_first_index(s.drop_first(), p);
        match first_index(s.drop_first(), p) {
            Some(k) => {
                assert(s[k + 1] == s.drop_first()[k]);
                assert forall|j: int| 0 <= j < k + 1 implies !p(#[trigger] s[j]) by {
                    if j > 0 {
                        assert(s[j] == s.drop_first()[j - 1]);
                    }
                }
            },
            None => {
                assert forall|j: int| 0 <= j < s.len() implies !p(#[trigger] s[j]) by {
                    if j > 0 {
                        assert(s[j] == s.drop_first()[j - 1]);
                    }
                }
            },
        }
    }
}

/// The characterization of `first_index` read backwards: an index that
/// satisfies `p` with no earlier one doing so is the first index.
pub proof fn lemma_first_index_is<A>(s: Seq<A>, p: spec_fn(A) -> bool, i: int)
    requires
        0 <= i < s.len(),
        p(s[i]),
        forall|j: int| 0 <= j < i ==> !p(#[trigger] s[j]),
    ensures
        first_index(s, p) == Some(i),
{
    lemma_first_index(s, p);
    match first_index(s, p) {
        Some(k) => {
            if k < i {
                assert(!p(s[k]));
            }
            if k > i {
                assert(!p(s[i]));
            }
        },
        None => {
            assert(!p(s[i]));
        },
    }
}

pub proof fn lemma_first_index_none<A>(s: Seq<A>, p: spec_fn(A) -> bool)
    requires
        forall|j: int| 0 <= j < s.len() ==> !p(#[trigger] s[j]),
    ensures
        first_index(s, p) is None,
{
    lemma_first_index(s, p);
    if let Some(k) = first_index(s, p) {
        assert(!p(s[k]));
    }
}

/// Appending keeps the first match of a sequence that has one.
pub proof fn lemma_first_index_push<A>(s: Seq<A>, x: A, p: spec_fn(A) -> bool)
    requires
        first_index(s, p) is Some,
    ensures
        first_index(s.push(x), p) == first_index(s, p),
{
    lemma_first_index(s, p);
    let i = first_index(s, p).unwrap();
    assert(s.push(x)[i] == s[i]);
    assert forall|j: int| 0 <= j < i implies !p(#[trigger] s.push(x)[j]) by {
        assert(s.push(x)[j] == s[j]);
    }
    lemma_first_index_is(s.push(x), p, i);
}

/// Appending a match to a sequence without one makes it the first match.
pub proof fn lemma_first_index_push_new<A>(s: Seq<A>, x: A, p: spec_fn(A) -> bool)
    requires
        first_index(s, p) is None,
        p(x),
    ensures
        first_index(s.push(x), p) == Some(s.len() as int),
{
    lemma_first_index(s, p);
    assert(s.push(x)[s.len() as int] == x);
    assert forall|j: int| 0 <= j < s.len() implies !p(#[trigger] s.push(x)[j]) by {
        assert(s.push(x)[j] == s[j]);
    }
    lemma_first_index_is(s.push(x), p, s.len() as int);
}

} // verus!
