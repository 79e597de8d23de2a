//! The `{name}` placeholder syntax shared by output formats and path
//! templates: a `{` followed (somewhere later) by a `}` encloses a key; any
//! other character is copied as it is.

use vstd::prelude::*;

use crate::text::{chars_find_from, find_char, lemma_find_char};

verus! {

/// Expand every `{key}` of `t` to `f(key)`, copying other characters.
pub open spec fn expand(t: Seq<char>, f: spec_fn(Seq<char>) -> Seq<char>) -> Seq<char>
    decreases t.len(),
{
    if t.len() == 0 {
        seq![]
    } else if t[0] == '{' && find_char(t.drop_first(), '}') is Some {
        let c = find_char(t.drop_first(), '}')->0 + 1;
        proof {
            lemma_find_char(t.drop_first(), '}');
        }
        f(t.subrange(1, c)) + expand(t.subrange(c + 1, t.len() as int), f)
    } else {
        seq![t[0]] + expand(t.drop_first(), f)
    }
}

/// If a placeholder starts at `i`, the position of its closing `}`.
pub fn placeholder_close(t: &[char], i: usize) -> (r: Option<usize>)
    requires
        i < t.len(),
    ensures
        match r {
            Some(c) => t@[i as int] == '{' && i < c < t.len() && find_char(
                t@.subrange(i + 1, t.len() as int),
                '}',
            ) == Some(c - i - 1),
            None => !(t@[i as int] == '{' && find_char(
                t@.subrange(i + 1, t.len() as int),
                '}',
            ) is Some),
        },
{
    if t[i] != '{' {
        return None;
    }
    chars_find_from(t, '}', i + 1)
}

pub proof fn lemma_expand_step(t: Seq<char>, i: int, f: spec_fn(Seq<char>) -> Seq<char>)
    requires
        0 <= i < t.len(),
    ensures
        (t[i] == '{' && find_char(t.subrange(i + 1, t.len() as int), '}') is Some) ==> {
            let k = find_char(t.subrange(i + 1, t.len() as int), '}')->0;
            expand(t.subrange(i, t.len() as int), f) == f(t.subrange(i + 1, i + 1 + k)) + expand(
                t.subrange(i + 2 + k, t.len() as int),
                f,
            )
        },
        !(t[i] == '{' && find_char(t.subrange(i + 1, t.len() as int), '}') is Some) ==> expand(
            t.subrange(i, t.len() as int),
            f,
        ) == seq![t[i]] + expand(t.subrange(i + 1, t.len() as int), f),
{
    let s = t.subrange(i, t.len() as int);
    assert(s.drop_first() =~= t.subrange(i + 1, t.len() as int));
    assert(s[0] == t[i]);
    if t[i] == '{' && find_char(t.subrange(i + 1, t.len() as int), '}') is Some {
        let k = find_char(t.subrange(i + 1, t.len() as int), '}')->0;
        lemma_find_char(t.subrange(i + 1, t.len() as int), '}');
        assert(s.subrange(1, k + 1) =~= t.subrange(i + 1, i + 1 + k));
        assert(s.subrange(k + 2, s.len() as int) =~= t.subrange(i + 2 + k, t.len() as int));
    }
}

} // verus!
