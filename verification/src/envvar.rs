//! `$VAR` / `${VAR}` references in configuration strings, the syntax PicGo
//! uses for secrets kept in the environment.

use vstd::prelude::*;

use crate::smap::SortedMap;
use crate::text::{
    ascii_alnum, ascii_alpha, chars_find_from, chars_of, find_char, is_ascii_alnum,
    is_ascii_alpha, lemma_find_char, push_chars, slice_chars, string_of,
};

verus! {

/// Length of the leading run of identifier characters (`[A-Za-z0-9_]`).
pub open spec fn ident_len(s: Seq<char>) -> nat
    decreases s.len(),
{
    if s.len() > 0 && (is_ascii_alnum(s[0]) || s[0] == '_') {
        1 + ident_len(s.drop_first())
    } else {
        0
    }
}

/// The reference that starts right after a `$`: its name, how many
/// characters after the `$` it spans, and whether it is braced.
pub open spec fn env_ref(s: Seq<char>) -> Option<(Seq<char>, int, bool)> {
    if s.len() == 0 {
        None
    } else if s[0] == '{' {
        match find_char(s.drop_first(), '}') {
            Some(c) => Some((s.subrange(1, 1 + c), c + 2, true)),
            None => None,
        }
    } else if is_ascii_alpha(s[0]) || s[0] == '_' {
        Some((s.subrange(0, ident_len(s) as int), ident_len(s) as int, false))
    } else {
        None
    }
}

/// A reference left as written when its variable is unknown.
pub open spec fn ref_literal(name: Seq<char>, braced: bool) -> Seq<char> {
    if braced {
        seq!['$', '{'] + name + seq!['}']
    } else {
        seq!['$'] + name
    }
}

/// A snapshot of environment variables: name to value.
pub type Env = SortedMap<String>;

/// What a reference stands for under `env`.
pub open spec fn ref_value(env: Map<Seq<char>, String>, name: Seq<char>, braced: bool) -> Seq<char> {
    if env.contains_key(name) {
        env[name]@
    } else {
        ref_literal(name, braced)
    }
}

/// Expand the references of `t` through `env`; unknown ones stay as written.
pub open spec fn expand_with(t: Seq<char>, env: Map<Seq<char>, String>) -> Seq<char>
    decreases t.len(),
{
    if t.len() == 0 {
        seq![]
    } else if t[0] == '$' && env_ref(t.drop_first()) is Some {
        let r = env_ref(t.drop_first())->0;
        proof {
            lemma_env_ref(t.drop_first());
        }
        ref_value(env, r.0, r.2) + expand_with(t.subrange(1 + r.1, t.len() as int), env)
    } else {
        seq![t[0]] + expand_with(t.drop_first(), env)
    }
}

/// The names the references of `t` mention, in order.
pub open spec fn ref_names(t: Seq<char>) -> Seq<Seq<char>>
    decreases t.len(),
{
    if t.len() == 0 {
        seq![]
    } else if t[0] == '$' && env_ref(t.drop_first()) is Some {
        let r = env_ref(t.drop_first())->0;
        proof {
            lemma_env_ref(t.drop_first());
        }
        seq![r.0] + ref_names(t.subrange(1 + r.1, t.len() as int))
    } else {
        ref_names(t.drop_first())
    }
}

pub proof fn lemma_ident_len(s: Seq<char>)
    ensures
        ident_len(s) <= s.len(),
        forall|j: int| 0 <= j < ident_len(s) ==> is_ascii_alnum(#[trigger] s[j]) || s[j] == '_',
        ident_len(s) < s.len() ==> !(is_ascii_alnum(s[ident_len(s) as int]) || s[ident_len(
            s,
        ) as int] == '_'),
    decreases s.len(),
{
    if s.len() > 0 && (is_ascii_alnum(s[0]) || s[0] == '_') {
        lemma_ident_len(s.drop_first());
        assert forall|j: int| 0 <= j < ident_len(s) implies is_ascii_alnum(#[trigger] s[j]) || s[j]
            == '_' by {
            if j > 0 {
                assert(s[j] == s.drop_first()[j - 1]);
            }
        }
        if ident_len(s) < s.len() {
            assert(s[ident_len(s) as int] == s.drop_first()[ident_len(s.drop_first()) as int]);
        }
    }
}

pub proof fn lemma_env_ref(s: Seq<char>)
    ensures
        env_ref(s) matches Some(r) ==> 1 <= r.1 <= s.len() && r.0.len() <= r.1,
{
    if s.len() > 0 && s[0] == '{' {
        lemma_find_char(s.drop_first(), '}');
    } else if s.len() > 0 {
        lemma_ident_len(s);
    }
}

/// A reference whose variable is unknown is written back exactly as it
/// appears: `$` followed by the text the reference spans.
proof fn lemma_literal_is_source(t: Seq<char>)
    requires
        t.len() > 0,
        t[0] == '$',
        env_ref(t.drop_first()) is Some,
    ensures
        ({
            let r = env_ref(t.drop_first())->0;
            ref_literal(r.0, r.2) == t.subrange(0, 1 + r.1)
        }),
{
    let s = t.drop_first();
    let r = env_ref(s)->0;
    lemma_env_ref(s);
    if s[0] == '{' {
        lemma_find_char(s.drop_first(), '}');
        let c = find_char(s.drop_first(), '}')->0;
        assert(ref_literal(r.0, r.2) =~= t.subrange(0, 1 + r.1));
    } else {
        assert(ref_literal(r.0, r.2) =~= t.subrange(0, 1 + r.1));
    }
}

/// Expanding leaves a text unchanged when none of the variables it
/// refers to is set: unknown references stay exactly as written.
pub proof fn law_unset_references_kept(t: Seq<char>, env: Map<Seq<char>, String>)
    requires
        forall|i: int| 0 <= i < ref_names(t).len() ==> !env.contains_key(#[trigger] ref_names(t)[i]),
    ensures
        expand_with(t, env) == t,
    decreases t.len(),
{
    if t.len() == 0 {
    } else if t[0] == '$' && env_ref(t.drop_first()) is Some {
        let r = env_ref(t.drop_first())->0;
        lemma_env_ref(t.drop_first());
        let rest = t.subrange(1 + r.1, t.len() as int);
        assert(ref_names(t) == seq![r.0] + ref_names(rest));
        assert(!env.contains_key(ref_names(t)[0]));
        assert forall|i: int| 0 <= i < ref_names(rest).len() implies !env.contains_key(
            #[trigger] ref_names(rest)[i],
        ) by {
            assert(ref_names(rest)[i] == ref_names(t)[i + 1]);
        }
        law_unset_references_kept(rest, env);
        lemma_literal_is_source(t);
        assert(expand_with(t, env) =~= t.subrange(0, 1 + r.1) + rest);
        assert(t.subrange(0, 1 + r.1) + rest =~= t);
    } else {
        assert(ref_names(t) == ref_names(t.drop_first()));
        law_unset_references_kept(t.drop_first(), env);
        assert(expand_with(t, env) =~= seq![t[0]] + t.drop_first());
        assert(seq![t[0]] + t.drop_first() =~= t);
    }
}

/// The reference starting at `t[i]` (just after a `$`), as
/// `(name_start, name_end, next, braced)`.
fn scan_ref(t: &[char], i: usize) -> (r: Option<(usize, usize, usize, bool)>)
    requires
        i <= t.len(),
    ensures
        match r {
            Some((a, b, next, braced)) => env_ref(t@.subrange(i as int, t@.len() as int)) == Some(
                (t@.subrange(a as int, b as int), next - i, braced),
            ) && i <= a <= b <= next <= t.len(),
            None => env_ref(t@.subrange(i as int, t@.len() as int)) is None,
        },
{
    let ghost s = t@.subrange(i as int, t@.len() as int);
    if i >= t.len() {
        return None;
    }
    if t[i] == '{' {
        assert(s.drop_first() =~= t@.subrange(i + 1, t@.len() as int));
        match chars_find_from(t, '}', i + 1) {
            Some(c) => {
                assert(s.subrange(1, 1 + (c - i - 1)) =~= t@.subrange(i + 1, c as int));
                Some((i + 1, c, c + 1, true))
            },
            None => None,
        }
    } else if ascii_alpha(t[i]) || t[i] == '_' {
        let mut e: usize = i;
        while e < t.len() && (ascii_alnum(t[e]) || t[e] == '_')
            invariant
                i <= e <= t.len(),
                s == t@.subrange(i as int, t@.len() as int),
                ident_len(s) == (e - i) + ident_len(t@.subrange(e as int, t@.len() as int)),
            decreases t.len() - e,
        {
            assert(t@.subrange(e as int, t@.len() as int).drop_first() =~= t@.subrange(
                e + 1,
                t@.len() as int,
            ));
            e = e + 1;
        }
        assert(ident_len(t@.subrange(e as int, t@.len() as int)) == 0);
        assert(s.subrange(0, (e - i) as int) =~= t@.subrange(i as int, e as int));
        Some((i, e, e, false))
    } else {
        None
    }
}

/// Expand `$VAR` and `${VAR}` references in `input` through the variables
/// of `env`; references to unknown variables are left as written.
pub fn expand_env(input: &str, env: &Env) -> (r: String)
    ensures
        r@ == expand_with(input@, env@),
{
    let t = chars_of(input);
    let mut out: Vec<char> = Vec::new();
    let mut i: usize = 0;
    assert(t@.subrange(0, t@.len() as int) =~= t@);
    while i < t.len()
        invariant
            i <= t.len(),
            expand_with(t@, env@) == out@ + expand_with(t@.subrange(i as int, t@.len() as int), env@),
        decreases t.len() - i,
    {
        let ghost s = t@.subrange(i as int, t@.len() as int);
        assert(s.drop_first() =~= t@.subrange(i + 1, t@.len() as int));
        assert(s[0] == t@[i as int]);
        let r = if t[i] == '$' { scan_ref(&t, i + 1) } else { None };
        match r {
            Some((a, b, next, braced)) => {
                let ghost before = out@;
                let name = slice_chars(&t, a, b);
                let name_s = string_of(&name);
                match env.get(name_s.as_str()) {
                    Some(x) => {
                        let xv = chars_of(x.as_str());
                        push_chars(&mut out, &xv);
                    },
                    None => {
                        out.push('$');
                        if braced {
                            out.push('{');
                        }
                        push_chars(&mut out, &name);
                        if braced {
                            out.push('}');
                        }
                    },
                }
                proof {
                    lemma_env_ref(s.drop_first());
                    let rr = env_ref(s.drop_first())->0;
                    assert(s.subrange(1 + rr.1, s.len() as int) =~= t@.subrange(
                        next as int,
                        t@.len() as int,
                    ));
                    assert(out@ =~= before + ref_value(env@, rr.0, rr.2));
                    let tail = expand_with(t@.subrange(next as int, t@.len() as int), env@);
                    assert(before + (ref_value(env@, rr.0, rr.2) + tail) =~= out@ + tail);
                }
                i = next;
            },
            None => {
                let ghost before = out@;
                out.push(t[i]);
                proof {
                    let tail = expand_with(t@.subrange(i + 1, t@.len() as int), env@);
                    assert(before + (seq![t@[i as int]] + tail) =~= out@ + tail);
                }
                i = i + 1;
            },
        }
    }
    proof {
        assert(t@.subrange(t@.len() as int, t@.len() as int) =~= Seq::<char>::empty());
        assert(out@ + Seq::<char>::empty() =~= out@);
    }
    string_of(&out)
}

/// The names of the references in `input`, in order.
pub fn env_ref_names(input: &str) -> (r: Vec<String>)
    ensures
        r@.map_values(|s: String| s@) == ref_names(input@),
{
    let t = chars_of(input);
    let mut out: Vec<String> = Vec::new();
    let mut i: usize = 0;
    assert(t@.subrange(0, t@.len() as int) =~= t@);
    while i < t.len()
        invariant
            i <= t.len(),
            ref_names(t@) == out@.map_values(|s: String| s@) + ref_names(
                t@.subrange(i as int, t@.len() as int),
            ),
        decreases t.len() - i,
    {
        let ghost s = t@.subrange(i as int, t@.len() as int);
        assert(s.drop_first() =~= t@.subrange(i + 1, t@.len() as int));
        assert(s[0] == t@[i as int]);
        let r = if t[i] == '$' { scan_ref(&t, i + 1) } else { None };
        match r {
            Some((a, b, next, _braced)) => {
                let ghost before = out@.map_values(|s: String| s@);
                let name = slice_chars(&t, a, b);
                out.push(string_of(&name));
                proof {
                    lemma_env_ref(s.drop_first());
                    let rr = env_ref(s.drop_first())->0;
                    assert(s.subrange(1 + rr.1, s.len() as int) =~= t@.subrange(
                        next as int,
                        t@.len() as int,
                    ));
                    assert(out@.map_values(|s: String| s@) =~= before.push(rr.0));
                    let tail = ref_names(t@.subrange(next as int, t@.len() as int));
                    assert(before + (seq![rr.0] + tail) =~= out@.map_values(|s: String| s@) + tail);
                }
                i = next;
            },
            None => {
                i = i + 1;
            },
        }
    }
    proof {
        assert(t@.subrange(t@.len() as int, t@.len() as int) =~= Seq::<char>::empty());
        assert(out@.map_values(|s: String| s@) + Seq::<Seq<char>>::empty() =~= out@.map_values(
            |s: String| s@,
        ));
    }
    out
}


} // verus!
