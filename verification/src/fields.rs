//! Free-form uploader fields as they appear in configuration files.

use vstd::prelude::*;

use crate::envvar::{expand_env, expand_with, Env};
use crate::smap::SortedMap;
use crate::text::{
    chars_contains, chars_of, contains_seq, dec, dec_chars, lower, lower_chars, own, push_chars,
    string_of,
};

verus! {

/// One configuration value. Values other than strings, integers and
/// booleans (floats, arrays, tables, dates) are kept as their TOML text.
#[derive(Debug)]
pub enum FieldValue {
    Text(String),
    Integer(i64),
    Boolean(bool),
    Other(String),
}

/// Decimal text of a signed integer.
pub open spec fn idec(i: int) -> Seq<char> {
    if i < 0 {
        seq!['-'] + dec((-i) as nat)
    } else {
        dec(i as nat)
    }
}

/// The text a value shows as: strings as themselves, other values as TOML
/// writes them.
pub open spec fn value_text(v: FieldValue) -> Seq<char> {
    match v {
        FieldValue::Text(s) => s@,
        FieldValue::Integer(i) => idec(i as int),
        FieldValue::Boolean(b) => if b {
            "true"@
        } else {
            "false"@
        },
        FieldValue::Other(s) => s@,
    }
}

impl FieldValue {
    /// An equal copy of the value.
    pub fn duplicate(&self) -> (r: FieldValue)
        ensures
            r == *self,
    {
        match self {
            FieldValue::Text(s) => FieldValue::Text(s.clone()),
            FieldValue::Integer(i) => FieldValue::Integer(*i),
            FieldValue::Boolean(b) => FieldValue::Boolean(*b),
            FieldValue::Other(s) => FieldValue::Other(s.clone()),
        }
    }

    /// The string a `Text` value holds.
    pub fn as_str(&self) -> (r: Option<&str>)
        ensures
            match *self {
                FieldValue::Text(s) => r matches Some(x) && x@ == s@,
                _ => r is None,
            },
    {
        match self {
            FieldValue::Text(s) => Some(s.as_str()),
            _ => None,
        }
    }

    /// The text the value shows as.
    pub fn text(&self) -> (r: String)
        ensures
            r@ == value_text(*self),
    {
        match self {
            FieldValue::Text(s) => s.clone(),
            FieldValue::Integer(i) => {
                let mut v: Vec<char> = Vec::new();
                if *i < 0 {
                    v.push('-');
                    let m: u64 = (-(*i as i128)) as u64;
                    let d = dec_chars(m);
                    push_chars(&mut v, &d);
                    assert(v@ =~= seq!['-'] + dec((-(*i as int)) as nat));
                } else {
                    let d = dec_chars(*i as u64);
                    push_chars(&mut v, &d);
                    assert(v@ =~= dec(*i as nat));
                }
                string_of(&v)
            },
            FieldValue::Boolean(b) => if *b {
                own("true")
            } else {
                own("false")
            },
            FieldValue::Other(s) => s.clone(),
        }
    }
}

/// Named fields of one uploader configuration.
pub type Fields = SortedMap<FieldValue>;

/// The text of a field, when present.
pub open spec fn spec_field(fields: Map<Seq<char>, FieldValue>, key: Seq<char>) -> Option<Seq<char>> {
    if fields.contains_key(key) {
        Some(value_text(fields[key]))
    } else {
        None
    }
}

/// The text of a field, or empty when absent.
pub open spec fn spec_string_field(fields: Map<Seq<char>, FieldValue>, key: Seq<char>) -> Seq<char> {
    match spec_field(fields, key) {
        Some(s) => s,
        None => seq![],
    }
}

/// The string of a field that holds a string.
pub open spec fn spec_str_field(fields: Map<Seq<char>, FieldValue>, key: Seq<char>) -> Option<Seq<char>> {
    if fields.contains_key(key) {
        match fields[key] {
            FieldValue::Text(s) => Some(s@),
            _ => None,
        }
    } else {
        None
    }
}

/// A field's text with environment references expanded.
pub open spec fn spec_resolved(
    fields: Map<Seq<char>, FieldValue>,
    key: Seq<char>,
    env: Map<Seq<char>, String>,
) -> Option<Seq<char>> {
    match spec_field(fields, key) {
        Some(s) => Some(expand_with(s, env)),
        None => None,
    }
}

pub fn field_text(fields: &Fields, key: &str) -> (r: Option<String>)
    ensures
        match r {
            Some(s) => spec_field(fields@, key@) == Some(s@),
            None => spec_field(fields@, key@) is None,
        },
{
    match fields.get(key) {
        Some(v) => Some(v.text()),
        None => None,
    }
}

pub fn string_field_of(fields: &Fields, key: &str) -> (r: String)
    ensures
        r@ == spec_string_field(fields@, key@),
{
    match field_text(fields, key) {
        Some(s) => s,
        None => String::new(),
    }
}

pub fn str_field_of(fields: &Fields, key: &str) -> (r: Option<String>)
    ensures
        match r {
            Some(s) => spec_str_field(fields@, key@) == Some(s@),
            None => spec_str_field(fields@, key@) is None,
        },
{
    match fields.get(key) {
        Some(FieldValue::Text(s)) => Some(s.clone()),
        _ => None,
    }
}

pub fn resolve_field(fields: &Fields, key: &str, env: &Env) -> (r: Option<String>)
    ensures
        match r {
            Some(s) => spec_resolved(fields@, key@, env@) == Some(s@),
            None => spec_resolved(fields@, key@, env@) is None,
        },
{
    match field_text(fields, key) {
        Some(s) => Some(expand_env(s.as_str(), env)),
        None => None,
    }
}

/// A copy of a field map with equal contents.
pub fn copy_fields(fields: &Fields) -> (r: Fields)
    ensures
        r@ == fields@,
{
    let mut out: Fields = SortedMap::new();
    let n = fields.len();
    let mut i: usize = 0;
    fields.check();
    while i < n
        invariant
            n == fields.seq().len(),
            i <= n,
            crate::smap::sorted_keys(fields.seq()),
            out@ == crate::smap::map_of(fields.seq().subrange(0, i as int)),
        decreases n - i,
    {
        let k = fields.key_at(i).clone();
        let v = fields.value_at(i).duplicate();
        out.insert(k, v);
        proof {
            let s = fields.seq().subrange(0, i + 1);
            assert(s.drop_last() =~= fields.seq().subrange(0, i as int));
        }
        i = i + 1;
    }
    assert(fields.seq().subrange(0, n as int) =~= fields.seq());
    out
}

/// Insert every field of `src` into `dst`; fields of `src` win.
pub fn merge_fields(dst: &mut Fields, src: &Fields)
    ensures
        final(dst)@ == old(dst)@.union_prefer_right(src@),
{
    let n = src.len();
    let mut i: usize = 0;
    src.check();
    while i < n
        invariant
            n == src.seq().len(),
            i <= n,
            dst@ == old(dst)@.union_prefer_right(crate::smap::map_of(src.seq().subrange(0, i as int))),
        decreases n - i,
    {
        let k = src.key_at(i).clone();
        let v = src.value_at(i).duplicate();
        let ghost before = crate::smap::map_of(src.seq().subrange(0, i as int));
        dst.insert(k, v);
        proof {
            let s = src.seq().subrange(0, i + 1);
            assert(s.drop_last() =~= src.seq().subrange(0, i as int));
            assert(crate::smap::map_of(s) == before.insert(s.last().0, s.last().1));
            assert(dst@ =~= old(dst)@.union_prefer_right(crate::smap::map_of(s)));
        }
        i = i + 1;
    }
    assert(src.seq().subrange(0, n as int) =~= src.seq());
}

/// Field names whose values are secrets.
pub open spec fn secret_words() -> Seq<Seq<char>> {
    seq![
        "token"@,
        "secret"@,
        "secret_access_key"@,
        "secretAccessKey"@,
        "password"@,
        "access_key_secret"@,
    ]
}

/// The lower-cased key contains one of the secret words.
pub open spec fn is_secret_key(k: Seq<char>) -> bool {
    exists|i: int| 0 <= i < secret_words().len() && contains_seq(lower(k), secret_words()[i])
}

fn secret_key(k: &[char]) -> (r: bool)
    ensures
        r == is_secret_key(k@),
{
    let words = vec!["token", "secret", "secret_access_key", "secretAccessKey", "password", "access_key_secret"];
    let ghost w = words@.map_values(|s: &str| s@);
    assert(w =~= secret_words());
    let l = lower_chars(k);
    let mut i: usize = 0;
    while i < words.len()
        invariant
            i <= words.len(),
            w == words@.map_values(|s: &str| s@),
            w == secret_words(),
            l@ == lower(k@),
            forall|j: int| 0 <= j < i ==> !contains_seq(lower(k@), #[trigger] secret_words()[j]),
        decreases words.len() - i,
    {
        let wv = chars_of(words[i]);
        assert(wv@ == w[i as int]);
        if chars_contains(&l, &wv) {
            return true;
        }
        i = i + 1;
    }
    false
}

/// Replace every secret field's value by the text `<redacted>`.
pub fn redact_fields(fields: &Fields) -> (r: Fields)
    ensures
        r@.dom() == fields@.dom(),
        forall|k: Seq<char>|
            #[trigger] r@.contains_key(k) ==> if is_secret_key(k) {
                r@[k] is Text && value_text(r@[k]) == "<redacted>"@
            } else {
                r@[k] == fields@[k]
            },
{
    let mut out: Fields = SortedMap::new();
    let n = fields.len();
    let mut i: usize = 0;
    fields.check();
    while i < n
        invariant
            n == fields.seq().len(),
            i <= n,
            crate::smap::sorted_keys(fields.seq()),
            forall|j: int|
                0 <= j < n ==> fields@.contains_key(#[trigger] fields.seq()[j].0)
                    && fields@[fields.seq()[j].0] == fields.seq()[j].1,
            forall|k: Seq<char>|
                fields@.contains_key(k) ==> exists|j: int|
                    0 <= j < n && #[trigger] fields.seq()[j].0 == k,
            forall|k: Seq<char>|
                #[trigger] out@.contains_key(k) <==> exists|j: int|
                    0 <= j < i && #[trigger] fields.seq()[j].0 == k,
            forall|k: Seq<char>|
                #[trigger] out@.contains_key(k) ==> if is_secret_key(k) {
                    out@[k] is Text && value_text(out@[k]) == "<redacted>"@
                } else {
                    out@[k] == fields@[k]
                },
        decreases n - i,
    {
        let key = fields.key_at(i);
        let kv = chars_of(key.as_str());
        let v = if secret_key(&kv) {
            FieldValue::Text(own("<redacted>"))
        } else {
            fields.value_at(i).duplicate()
        };
        out.insert(key.clone(), v);
        proof {
            assert forall|k: Seq<char>| #[trigger] out@.contains_key(k) <==> exists|j: int|
                0 <= j < i + 1 && #[trigger] fields.seq()[j].0 == k by {
                if k == fields.seq()[i as int].0 {
                    assert(fields.seq()[i as int].0 == k);
                }
            }
        }
        i = i + 1;
    }
    proof {
        assert forall|k: Seq<char>| #[trigger] out@.dom().contains(k) == fields@.dom().contains(k) by {
            if fields@.contains_key(k) {
                let j = choose|j: int| 0 <= j < n && #[trigger] fields.seq()[j].0 == k;
            }
        }
        assert(out@.dom() =~= fields@.dom());
    }
    out
}

} // verus!
