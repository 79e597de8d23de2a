//! Path template rendering. Placeholders: `{yyyy} {yy} {mm} {dd} {hh} {min}
//! {ss} {timestamp} {unix} {name} {slug} {hash} {hash8} {uuid} {ext}
//! {random}`; unknown ones are kept as written.

use vstd::prelude::*;

use crate::kinds::{spec_strategy_template, RenameStrategy};
use crate::placeholder::placeholder_close;
use crate::stamp::{hyphenated_uuid, lower_hex, new_id, new_simple_uuid};
use crate::text::{
    ascii_alnum, ascii_lower, chars_eq, chars_of, dec, find_char, is_ascii_alnum, is_ascii_digit,
    lemma_find_char, push_chars, push_str, slice_chars, spec_ascii_lower, strip_end,
    strip_end_chars, string_of,
};

verus! {

/// The clock readings a template can use, all taken from one instant: the
/// local date and time fields as two-digit (four for the year) text, and
/// the Unix time in milliseconds and in seconds.
pub struct TemplateTime {
    pub yyyy: String,
    pub yy: String,
    pub mm: String,
    pub dd: String,
    pub hh: String,
    pub min: String,
    pub ss: String,
    pub millis: i64,
    pub unix: i64,
}

/// Two ASCII digits whose value lies in `lo..=hi`.
pub open spec fn two_digits(s: Seq<char>, lo: int, hi: int) -> bool {
    &&& s.len() == 2
    &&& is_ascii_digit(s[0]) && is_ascii_digit(s[1])
    &&& lo <= (s[0] as int - 48) * 10 + (s[1] as int - 48) <= hi
}

/// The date and time fields have the shapes chrono's `%Y %y %m %d %H %M %S`
/// give them: a year of at least four characters, then two-digit year of
/// the century, month, day, hour, minute and second.
pub open spec fn time_shaped(t: TemplateTime) -> bool {
    &&& t.yyyy@.len() >= 4
    &&& two_digits(t.yy@, 0, 99)
    &&& two_digits(t.mm@, 1, 12)
    &&& two_digits(t.dd@, 1, 31)
    &&& two_digits(t.hh@, 0, 23)
    &&& two_digits(t.min@, 0, 59)
    &&& two_digits(t.ss@, 0, 60)
}

/// Calls `chrono::Utc::now`, converts it to the local time zone
/// (`with_timezone(&chrono::Local)`) and formats its fields with `%Y %y %m
/// %d %H %M %S`; the instant's `timestamp_millis` and `timestamp` fill the
/// rest. The clock and the time zone are the machine's, so only the shape
/// of each field (`time_shaped`, as chrono's format table fixes it) is
/// stated, not its value.
#[verifier::external_body]
fn template_time_now() -> (r: TemplateTime)
    ensures
        time_shaped(r),
{
    let now = chrono::Utc::now();
    let local = now.with_timezone(&chrono::Local);
    TemplateTime {
        yyyy: local.format("%Y").to_string(),
        yy: local.format("%y").to_string(),
        mm: local.format("%m").to_string(),
        dd: local.format("%d").to_string(),
        hh: local.format("%H").to_string(),
        min: local.format("%M").to_string(),
        ss: local.format("%S").to_string(),
        millis: now.timestamp_millis(),
        unix: now.timestamp(),
    }
}

/// The variables a template can reference.
pub struct TemplateContext {
    pub file_name: String,
    pub extension: String,
    pub content_hash_hex: String,
    pub time: TemplateTime,
}

impl TemplateContext {
    /// A context for a file, stamped with the current time.
    pub fn new(file_name: &str, extension: &str, content_hash_hex: &str) -> (r: Self)
        ensures
            r.file_name@ == file_name@,
            r.extension@ == extension@,
            r.content_hash_hex@ == content_hash_hex@,
            time_shaped(r.time),
    {
        TemplateContext {
            file_name: crate::text::own(file_name),
            extension: crate::text::own(extension),
            content_hash_hex: crate::text::own(content_hash_hex),
            time: template_time_now(),
        }
    }
}

// ------------------------------------------------------------------
// Slugs
// ------------------------------------------------------------------

/// The slug built so far and whether it ends with a dash put in for
/// separators.
pub open spec fn slug_state(s: Seq<char>) -> (Seq<char>, bool)
    decreases s.len(),
{
    if s.len() == 0 {
        (seq![], false)
    } else {
        let (acc, last_dash) = slug_state(s.drop_last());
        let c = s.last();
        if is_ascii_alnum(c) {
            (acc.push(spec_ascii_lower(c)), false)
        } else if c == '-' || c == '_' {
            (acc.push(c), false)
        } else if !last_dash && acc.len() > 0 {
            (acc.push('-'), true)
        } else {
            (acc, last_dash)
        }
    }
}

/// A filesystem-friendly slug: ASCII letters and digits lower-cased, `-`
/// and `_` kept, each run of other characters after some output becomes
/// one `-`, and trailing dashes are dropped.
pub open spec fn spec_slugify(s: Seq<char>) -> Seq<char> {
    strip_end(slug_state(s).0, '-')
}

/// A character a slug may hold: a lower-case ASCII letter, a digit, `-`
/// or `_`.
pub open spec fn slug_char(c: char) -> bool {
    ('a' <= c && c <= 'z') || ('0' <= c && c <= '9') || c == '-' || c == '_'
}

proof fn lemma_slug_state_chars(s: Seq<char>)
    ensures
        forall|i: int| 0 <= i < slug_state(s).0.len() ==> slug_char(#[trigger] slug_state(s).0[i]),
    decreases s.len(),
{
    if s.len() > 0 {
        lemma_slug_state_chars(s.drop_last());
        let prev = slug_state(s.drop_last()).0;
        let c = s.last();
        let out = slug_state(s).0;
        if is_ascii_alnum(c) {
            assert(slug_char(spec_ascii_lower(c)));
        }
        assert forall|i: int| 0 <= i < out.len() implies slug_char(#[trigger] out[i]) by {
            if i < prev.len() {
                assert(out[i] == prev[i]);
            }
        }
    }
}

proof fn lemma_strip_end_prefix(s: Seq<char>, c: char)
    ensures
        strip_end(s, c).len() <= s.len(),
        strip_end(s, c) == s.subrange(0, strip_end(s, c).len() as int),
        strip_end(s, c).len() == 0 || strip_end(s, c).last() != c,
    decreases s.len(),
{
    if s.len() > 0 && s.last() == c {
        lemma_strip_end_prefix(s.drop_last(), c);
        assert(s.drop_last().subrange(0, strip_end(s, c).len() as int) =~= s.subrange(
            0,
            strip_end(s, c).len() as int,
        ));
    } else {
        assert(s.subrange(0, s.len() as int) =~= s);
    }
}

/// A slug is filesystem friendly: it holds only lower-case ASCII letters,
/// digits, `-` and `_`, and does not end with `-`.
pub proof fn law_slug_is_filesystem_friendly(s: Seq<char>)
    ensures
        forall|i: int| 0 <= i < spec_slugify(s).len() ==> slug_char(#[trigger] spec_slugify(s)[i]),
        spec_slugify(s).len() == 0 || spec_slugify(s).last() != '-',
{
    let acc = slug_state(s).0;
    lemma_slug_state_chars(s);
    lemma_strip_end_prefix(acc, '-');
    let r = spec_slugify(s);
    assert forall|i: int| 0 <= i < r.len() implies slug_char(#[trigger] r[i]) by {
        assert(r[i] == acc[i]);
    }
}

/// Produce the slug of a text.
pub fn slugify(input: &str) -> (r: String)
    ensures
        r@ == spec_slugify(input@),
{
    let s = chars_of(input);
    let mut acc: Vec<char> = Vec::new();
    let mut last_dash = false;
    let mut i: usize = 0;
    while i < s.len()
        invariant
            i <= s.len(),
            slug_state(s@.subrange(0, i as int)) == (acc@, last_dash),
        decreases s.len() - i,
    {
        let c = s[i];
        if ascii_alnum(c) {
            acc.push(ascii_lower(c));
            last_dash = false;
        } else if c == '-' || c == '_' {
            acc.push(c);
            last_dash = false;
        } else if !last_dash && acc.len() > 0 {
            acc.push('-');
            last_dash = true;
        }
        proof {
            let t = s@.subrange(0, i + 1);
            assert(t.drop_last() =~= s@.subrange(0, i as int));
        }
        i = i + 1;
    }
    proof {
        assert(s@.subrange(0, s.len() as int) =~= s@);
    }
    let r = strip_end_chars(&acc, '-');
    string_of(&r)
}

// ------------------------------------------------------------------
// Rendering
// ------------------------------------------------------------------

/// The placeholders that take a fresh random value each time.
pub open spec fn is_random_key(k: Seq<char>) -> bool {
    k == "uuid"@ || k == "random"@
}

/// The value of a non-random placeholder (unknown ones are kept).
pub open spec fn template_subst(k: Seq<char>, c: TemplateContext) -> Seq<char> {
    if k == "yyyy"@ {
        c.time.yyyy@
    } else if k == "yy"@ {
        c.time.yy@
    } else if k == "mm"@ {
        c.time.mm@
    } else if k == "dd"@ {
        c.time.dd@
    } else if k == "hh"@ {
        c.time.hh@
    } else if k == "min"@ {
        c.time.min@
    } else if k == "ss"@ {
        c.time.ss@
    } else if k == "timestamp"@ {
        crate::fields::idec(c.time.millis as int)
    } else if k == "unix"@ {
        crate::fields::idec(c.time.unix as int)
    } else if k == "name"@ {
        c.file_name@
    } else if k == "slug"@ {
        spec_slugify(c.file_name@)
    } else if k == "hash"@ {
        c.content_hash_hex@
    } else if k == "hash8"@ {
        c.content_hash_hex@.subrange(
            0,
            if c.content_hash_hex@.len() < 8 {
                c.content_hash_hex@.len() as int
            } else {
                8
            },
        )
    } else if k == "ext"@ {
        c.extension@
    } else {
        seq!['{'] + k + seq!['}']
    }
}

/// A template rendered with `c`; the random placeholders take the values
/// of `rs` in order (nothing once they run out).
pub open spec fn spec_render(t: Seq<char>, c: TemplateContext, rs: Seq<Seq<char>>) -> Seq<char>
    decreases t.len(),
{
    if t.len() == 0 {
        seq![]
    } else if t[0] == '{' && find_char(t.drop_first(), '}') is Some {
        let e = find_char(t.drop_first(), '}')->0 + 1;
        proof {
            lemma_find_char(t.drop_first(), '}');
        }
        let k = t.subrange(1, e);
        let rest = t.subrange(e + 1, t.len() as int);
        if is_random_key(k) {
            if rs.len() > 0 {
                rs[0] + spec_render(rest, c, rs.drop_first())
            } else {
                spec_render(rest, c, rs)
            }
        } else {
            template_subst(k, c) + spec_render(rest, c, rs)
        }
    } else {
        seq![t[0]] + spec_render(t.drop_first(), c, rs)
    }
}

/// The number of random placeholders in a template.
pub open spec fn random_count(t: Seq<char>) -> nat
    decreases t.len(),
{
    if t.len() == 0 {
        0
    } else if t[0] == '{' && find_char(t.drop_first(), '}') is Some {
        let e = find_char(t.drop_first(), '}')->0 + 1;
        proof {
            lemma_find_char(t.drop_first(), '}');
        }
        (if is_random_key(t.subrange(1, e)) {
            1nat
        } else {
            0nat
        }) + random_count(t.subrange(e + 1, t.len() as int))
    } else {
        random_count(t.drop_first())
    }
}

/// The random placeholders of a template, in order.
pub open spec fn random_keys(t: Seq<char>) -> Seq<Seq<char>>
    decreases t.len(),
{
    if t.len() == 0 {
        seq![]
    } else if t[0] == '{' && find_char(t.drop_first(), '}') is Some {
        let e = find_char(t.drop_first(), '}')->0 + 1;
        proof {
            lemma_find_char(t.drop_first(), '}');
        }
        (if is_random_key(t.subrange(1, e)) {
            seq![t.subrange(1, e)]
        } else {
            seq![]
        }) + random_keys(t.subrange(e + 1, t.len() as int))
    } else {
        random_keys(t.drop_first())
    }
}

/// A value fit for a random placeholder: a `{uuid}` takes a hyphenated
/// version-4 UUID, a `{random}` twelve lowercase hex digits.
pub open spec fn random_piece_fits(key: Seq<char>, piece: Seq<char>) -> bool {
    &&& key == "uuid"@ ==> hyphenated_uuid(piece)
    &&& key == "random"@ ==> piece.len() == 12 && forall|i: int| 0 <= i < 12 ==> lower_hex(#[trigger] piece[i])
}

proof fn lemma_keys_count(t: Seq<char>)
    ensures
        random_keys(t).len() == random_count(t),
    decreases t.len(),
{
    if t.len() > 0 {
        if t[0] == '{' && find_char(t.drop_first(), '}') is Some {
            let e = find_char(t.drop_first(), '}')->0 + 1;
            lemma_find_char(t.drop_first(), '}');
            lemma_keys_count(t.subrange(e + 1, t.len() as int));
        } else {
            lemma_keys_count(t.drop_first());
        }
    }
}

proof fn lemma_keys_step(t: Seq<char>, i: int)
    requires
        0 <= i < t.len(),
    ensures
        ({
            let s = t.subrange(i, t.len() as int);
            if t[i] == '{' && find_char(t.subrange(i + 1, t.len() as int), '}') is Some {
                let k = find_char(t.subrange(i + 1, t.len() as int), '}')->0;
                let key = t.subrange(i + 1, i + 1 + k);
                random_keys(s) == (if is_random_key(key) {
                    seq![key]
                } else {
                    seq![]
                }) + random_keys(t.subrange(i + 2 + k, t.len() as int))
            } else {
                random_keys(s) == random_keys(t.subrange(i + 1, t.len() as int))
            }
        }),
{
    let s = t.subrange(i, t.len() as int);
    assert(s.drop_first() =~= t.subrange(i + 1, t.len() as int));
    assert(s[0] == t[i]);
    if t[i] == '{' && find_char(t.subrange(i + 1, t.len() as int), '}') is Some {
        let k = find_char(t.subrange(i + 1, t.len() as int), '}')->0;
        lemma_find_char(t.subrange(i + 1, t.len() as int), '}');
        assert(s.subrange(1, k + 1) =~= t.subrange(i + 1, i + 1 + k));
        assert(s.subrange(k + 2, s.len() as int) =~= t.subrange(i + 2 + k, t.len() as int));
    }
}

proof fn lemma_render_step(t: Seq<char>, i: int, c: TemplateContext, rs: Seq<Seq<char>>)
    requires
        0 <= i < t.len(),
    ensures
        ({
            let s = t.subrange(i, t.len() as int);
            if t[i] == '{' && find_char(t.subrange(i + 1, t.len() as int), '}') is Some {
                let k = find_char(t.subrange(i + 1, t.len() as int), '}')->0;
                let key = t.subrange(i + 1, i + 1 + k);
                let rest = t.subrange(i + 2 + k, t.len() as int);
                spec_render(s, c, rs) == if is_random_key(key) {
                    if rs.len() > 0 {
                        rs[0] + spec_render(rest, c, rs.drop_first())
                    } else {
                        spec_render(rest, c, rs)
                    }
                } else {
                    template_subst(key, c) + spec_render(rest, c, rs)
                }
            } else {
                spec_render(s, c, rs) == seq![t[i]] + spec_render(
                    t.subrange(i + 1, t.len() as int),
                    c,
                    rs,
                )
            }
        }),
{
    let s = t.subrange(i, t.len() as int);
    assert(s.drop_first() =~= t.subrange(i + 1, t.len() as int));
    assert(s[0] == t[i]);
    if t[i] == '{' && find_char(t.subrange(i + 1, t.len() as int), '}') is Some {
        let k = find_char(t.subrange(i + 1, t.len() as int), '}')->0;
        lemma_find_char(t.subrange(i + 1, t.len() as int), '}');
        assert(s.subrange(1, k + 1) =~= t.subrange(i + 1, i + 1 + k));
        assert(s.subrange(k + 2, s.len() as int) =~= t.subrange(i + 2 + k, t.len() as int));
    }
}

proof fn lemma_count_step(t: Seq<char>, i: int)
    requires
        0 <= i < t.len(),
    ensures
        ({
            let s = t.subrange(i, t.len() as int);
            if t[i] == '{' && find_char(t.subrange(i + 1, t.len() as int), '}') is Some {
                let k = find_char(t.subrange(i + 1, t.len() as int), '}')->0;
                random_count(s) == (if is_random_key(t.subrange(i + 1, i + 1 + k)) {
                    1nat
                } else {
                    0nat
                }) + random_count(t.subrange(i + 2 + k, t.len() as int))
            } else {
                random_count(s) == random_count(t.subrange(i + 1, t.len() as int))
            }
        }),
{
    let s = t.subrange(i, t.len() as int);
    assert(s.drop_first() =~= t.subrange(i + 1, t.len() as int));
    assert(s[0] == t[i]);
    if t[i] == '{' && find_char(t.subrange(i + 1, t.len() as int), '}') is Some {
        let k = find_char(t.subrange(i + 1, t.len() as int), '}')->0;
        lemma_find_char(t.subrange(i + 1, t.len() as int), '}');
        assert(s.subrange(1, k + 1) =~= t.subrange(i + 1, i + 1 + k));
        assert(s.subrange(k + 2, s.len() as int) =~= t.subrange(i + 2 + k, t.len() as int));
    }
}

fn idec_string(v: i64) -> (r: Vec<char>)
    ensures
        r@ == crate::fields::idec(v as int),
{
    let s = crate::fields::FieldValue::Integer(v).text();
    chars_of(s.as_str())
}

fn push_subst(out: &mut Vec<char>, key: &[char], c: &TemplateContext)
    requires
        !is_random_key(key@),
    ensures
        final(out)@ == old(out)@ + template_subst(key@, *c),
{
    if chars_eq(key, &chars_of("yyyy")) {
        push_str(out, c.time.yyyy.as_str());
    } else if chars_eq(key, &chars_of("yy")) {
        push_str(out, c.time.yy.as_str());
    } else if chars_eq(key, &chars_of("mm")) {
        push_str(out, c.time.mm.as_str());
    } else if chars_eq(key, &chars_of("dd")) {
        push_str(out, c.time.dd.as_str());
    } else if chars_eq(key, &chars_of("hh")) {
        push_str(out, c.time.hh.as_str());
    } else if chars_eq(key, &chars_of("min")) {
        push_str(out, c.time.min.as_str());
    } else if chars_eq(key, &chars_of("ss")) {
        push_str(out, c.time.ss.as_str());
    } else if chars_eq(key, &chars_of("timestamp")) {
        let d = idec_string(c.time.millis);
        push_chars(out, &d);
    } else if chars_eq(key, &chars_of("unix")) {
        let d = idec_string(c.time.unix);
        push_chars(out, &d);
    } else if chars_eq(key, &chars_of("name")) {
        push_str(out, c.file_name.as_str());
    } else if chars_eq(key, &chars_of("slug")) {
        let s = slugify(c.file_name.as_str());
        push_str(out, s.as_str());
    } else if chars_eq(key, &chars_of("hash")) {
        push_str(out, c.content_hash_hex.as_str());
    } else if chars_eq(key, &chars_of("hash8")) {
        let h = chars_of(c.content_hash_hex.as_str());
        let n = if h.len() < 8 {
            h.len()
        } else {
            8
        };
        let p = slice_chars(&h, 0, n);
        push_chars(out, &p);
    } else if chars_eq(key, &chars_of("ext")) {
        push_str(out, c.extension.as_str());
    } else {
        out.push('{');
        push_chars(out, key);
        out.push('}');
        assert(out@ =~= old(out)@ + (seq!['{'] + key@ + seq!['}']));
    }
}

fn is_random_placeholder(key: &[char]) -> (r: bool)
    ensures
        r == is_random_key(key@),
{
    chars_eq(key, &chars_of("uuid")) || chars_eq(key, &chars_of("random"))
}

/// Render a template with the given values for its random placeholders.
pub fn render_template_with(template: &str, ctx: &TemplateContext, randoms: &Vec<String>) -> (r: String)
    ensures
        r@ == spec_render(template@, *ctx, crate::text::views(randoms@)),
{
    let t = chars_of(template);
    let ghost rs = crate::text::views(randoms@);
    let mut out: Vec<char> = Vec::new();
    let mut i: usize = 0;
    let mut j: usize = 0;
    assert(t@.subrange(0, t@.len() as int) =~= t@);
    assert(rs.subrange(0, rs.len() as int) =~= rs);
    while i < t.len()
        invariant
            i <= t.len(),
            j <= randoms.len(),
            rs == crate::text::views(randoms@),
            spec_render(t@, *ctx, rs) == out@ + spec_render(
                t@.subrange(i as int, t@.len() as int),
                *ctx,
                rs.subrange(j as int, rs.len() as int),
            ),
        decreases t.len() - i,
    {
        let ghost rj = rs.subrange(j as int, rs.len() as int);
        proof {
            lemma_render_step(t@, i as int, *ctx, rj);
        }
        match placeholder_close(&t, i) {
            Some(e) => {
                let key = slice_chars(&t, i + 1, e);
                let ghost before = out@;
                proof {
                    assert(i + 2 + (e - i - 1) == e + 1);
                }
                if is_random_placeholder(&key) {
                    if j < randoms.len() {
                        push_str(&mut out, randoms[j].as_str());
                        proof {
                            assert(rj[0] == randoms@[j as int]@);
                            assert(rj.drop_first() =~= rs.subrange(j + 1, rs.len() as int));
                            let rest = spec_render(t@.subrange(e + 1, t@.len() as int), *ctx, rj.drop_first());
                            assert(before + (rj[0] + rest) =~= out@ + rest);
                        }
                        j = j + 1;
                    }
                } else {
                    push_subst(&mut out, &key, ctx);
                    proof {
                        let rest = spec_render(t@.subrange(e + 1, t@.len() as int), *ctx, rj);
                        assert(before + (template_subst(key@, *ctx) + rest) =~= out@ + rest);
                    }
                }
                i = e + 1;
            },
            None => {
                let ghost before = out@;
                out.push(t[i]);
                proof {
                    let rest = spec_render(t@.subrange(i + 1, t@.len() as int), *ctx, rj);
                    assert(before + (seq![t@[i as int]] + rest) =~= out@ + rest);
                }
                i = i + 1;
            },
        }
    }
    proof {
        assert(t@.subrange(t@.len() as int, t@.len() as int) =~= Seq::<char>::empty());
    }
    string_of(&out)
}

/// Count the random placeholders of a template.
pub fn count_random(template: &str) -> (n: usize)
    ensures
        n as nat == random_count(template@),
{
    let t = chars_of(template);
    let mut n: usize = 0;
    let mut i: usize = 0;
    assert(t@.subrange(0, t@.len() as int) =~= t@);
    while i < t.len()
        invariant
            i <= t.len(),
            n <= i,
            random_count(t@) == n + random_count(t@.subrange(i as int, t@.len() as int)),
        decreases t.len() - i,
    {
        proof {
            lemma_count_step(t@, i as int);
        }
        match placeholder_close(&t, i) {
            Some(e) => {
                let key = slice_chars(&t, i + 1, e);
                proof {
                    assert(i + 2 + (e - i - 1) == e + 1);
                }
                if is_random_placeholder(&key) {
                    n = n + 1;
                }
                i = e + 1;
            },
            None => {
                i = i + 1;
            },
        }
    }
    proof {
        assert(t@.subrange(t@.len() as int, t@.len() as int) =~= Seq::<char>::empty());
    }
    n
}

/// Text without `{` renders as itself.
proof fn lemma_render_plain(p: Seq<char>, rest: Seq<char>, c: TemplateContext, rs: Seq<Seq<char>>)
    requires
        forall|i: int| 0 <= i < p.len() ==> p[i] != '{',
    ensures
        spec_render(p + rest, c, rs) == p + spec_render(rest, c, rs),
    decreases p.len(),
{
    if p.len() == 0 {
        assert(p + rest =~= rest);
    } else {
        let t = p + rest;
        assert(t[0] == p[0]);
        assert(t.drop_first() =~= p.drop_first() + rest);
        lemma_render_plain(p.drop_first(), rest, c, rs);
        assert(p =~= seq![p[0]] + p.drop_first());
        assert(seq![p[0]] + (p.drop_first() + spec_render(rest, c, rs)) =~= p + spec_render(rest, c, rs));
    }
}

/// A placeholder `{k}` that takes no random value renders as `k`'s value.
proof fn lemma_render_placeholder(k: Seq<char>, rest: Seq<char>, c: TemplateContext, rs: Seq<Seq<char>>)
    requires
        forall|i: int| 0 <= i < k.len() ==> k[i] != '}',
        !is_random_key(k),
    ensures
        spec_render(seq!['{'] + k + seq!['}'] + rest, c, rs) == template_subst(k, c) + spec_render(
            rest,
            c,
            rs,
        ),
{
    let t = seq!['{'] + k + seq!['}'] + rest;
    let d = t.drop_first();
    assert(d =~= k + seq!['}'] + rest);
    assert(d[k.len() as int] == '}');
    lemma_find_char(d, '}');
    assert(find_char(d, '}') == Some(k.len() as int));
    let e: int = k.len() as int + 1;
    assert(t.subrange(1, e) =~= k);
    assert(t.subrange(e + 1, t.len() as int) =~= rest);
}

/// The default rename strategy stores a file under its date and content
/// hash: the key is `images/<year>/<month>/<day>/<first 8 hash digits>.<ext>`,
/// the year, month and day in that order from the clock reading, whatever
/// the random values.
pub proof fn law_date_hash_key(c: TemplateContext, rs: Seq<Seq<char>>)
    ensures
        spec_render(spec_strategy_template(RenameStrategy::DateHash), c, rs) == "images/"@ + c.time.yyyy@
            + "/"@ + c.time.mm@ + "/"@ + c.time.dd@ + "/"@ + c.content_hash_hex@.subrange(
            0,
            if c.content_hash_hex@.len() < 8 {
                c.content_hash_hex@.len() as int
            } else {
                8
            },
        ) + "."@ + c.extension@,
{
    reveal_strlit("images/{yyyy}/{mm}/{dd}/{hash8}.{ext}");
    reveal_strlit("images/");
    reveal_strlit("/");
    reveal_strlit(".");
    reveal_strlit("yyyy");
    reveal_strlit("yy");
    reveal_strlit("mm");
    reveal_strlit("dd");
    reveal_strlit("hh");
    reveal_strlit("min");
    reveal_strlit("ss");
    reveal_strlit("timestamp");
    reveal_strlit("unix");
    reveal_strlit("name");
    reveal_strlit("slug");
    reveal_strlit("hash");
    reveal_strlit("hash8");
    reveal_strlit("ext");
    reveal_strlit("uuid");
    reveal_strlit("random");
    let e: Seq<char> = seq![];
    let t9 = seq!['{'] + "ext"@ + seq!['}'] + e;
    let t8 = "."@ + t9;
    let t7 = seq!['{'] + "hash8"@ + seq!['}'] + t8;
    let t6 = "/"@ + t7;
    let t5 = seq!['{'] + "dd"@ + seq!['}'] + t6;
    let t4 = "/"@ + t5;
    let t3 = seq!['{'] + "mm"@ + seq!['}'] + t4;
    let t2 = "/"@ + t3;
    let t1 = seq!['{'] + "yyyy"@ + seq!['}'] + t2;
    let t0 = "images/"@ + t1;
    assert(t0 =~= "images/{yyyy}/{mm}/{dd}/{hash8}.{ext}"@);
    assert(spec_render(e, c, rs) == Seq::<char>::empty());
    lemma_render_placeholder("ext"@, e, c, rs);
    lemma_render_plain("."@, t9, c, rs);
    lemma_render_placeholder("hash8"@, t8, c, rs);
    lemma_render_plain("/"@, t7, c, rs);
    lemma_render_placeholder("dd"@, t6, c, rs);
    lemma_render_plain("/"@, t5, c, rs);
    lemma_render_placeholder("mm"@, t4, c, rs);
    lemma_render_plain("/"@, t3, c, rs);
    assert("yyyy"@[0] != "uuid"@[0]);
    lemma_render_placeholder("yyyy"@, t2, c, rs);
    lemma_render_plain("images/"@, t1, c, rs);
    let h = c.content_hash_hex@.subrange(
        0,
        if c.content_hash_hex@.len() < 8 {
            c.content_hash_hex@.len() as int
        } else {
            8
        },
    );
    assert(spec_render(t0, c, rs) =~= "images/"@ + c.time.yyyy@ + "/"@ + c.time.mm@ + "/"@ + c.time.dd@
        + "/"@ + h + "."@ + c.extension@);
}

/// A `{uuid}` placeholder takes the first random value.
proof fn lemma_render_uuid(rest: Seq<char>, c: TemplateContext, rs: Seq<Seq<char>>)
    requires
        rs.len() > 0,
    ensures
        spec_render(seq!['{'] + "uuid"@ + seq!['}'] + rest, c, rs) == rs[0] + spec_render(
            rest,
            c,
            rs.drop_first(),
        ),
{
    reveal_strlit("uuid");
    let k = "uuid"@;
    let t = seq!['{'] + k + seq!['}'] + rest;
    let d = t.drop_first();
    assert(d =~= k + seq!['}'] + rest);
    assert(d[k.len() as int] == '}');
    lemma_find_char(d, '}');
    assert(find_char(d, '}') == Some(k.len() as int));
    let e: int = k.len() as int + 1;
    assert(t.subrange(1, e) =~= k);
    assert(t.subrange(e + 1, t.len() as int) =~= rest);
}

/// The date-and-name strategy stores a file under its date and own name:
/// `images/<year>/<month>/<day>/<name>.<ext>`.
pub proof fn law_date_name_key(c: TemplateContext, rs: Seq<Seq<char>>)
    ensures
        spec_render(spec_strategy_template(RenameStrategy::DateName), c, rs) == "images/"@ + c.time.yyyy@
            + "/"@ + c.time.mm@ + "/"@ + c.time.dd@ + "/"@ + c.file_name@ + "."@ + c.extension@,
{
    reveal_strlit("images/{yyyy}/{mm}/{dd}/{name}.{ext}");
    reveal_strlit("images/");
    reveal_strlit("/");
    reveal_strlit(".");
    reveal_strlit("yyyy");
    reveal_strlit("yy");
    reveal_strlit("mm");
    reveal_strlit("dd");
    reveal_strlit("hh");
    reveal_strlit("min");
    reveal_strlit("ss");
    reveal_strlit("timestamp");
    reveal_strlit("unix");
    reveal_strlit("name");
    reveal_strlit("slug");
    reveal_strlit("hash");
    reveal_strlit("hash8");
    reveal_strlit("ext");
    reveal_strlit("uuid");
    reveal_strlit("random");
    let e: Seq<char> = seq![];
    let t9 = seq!['{'] + "ext"@ + seq!['}'] + e;
    let t8 = "."@ + t9;
    let t7 = seq!['{'] + "name"@ + seq!['}'] + t8;
    let t6 = "/"@ + t7;
    let t5 = seq!['{'] + "dd"@ + seq!['}'] + t6;
    let t4 = "/"@ + t5;
    let t3 = seq!['{'] + "mm"@ + seq!['}'] + t4;
    let t2 = "/"@ + t3;
    let t1 = seq!['{'] + "yyyy"@ + seq!['}'] + t2;
    let t0 = "images/"@ + t1;
    assert(t0 =~= "images/{yyyy}/{mm}/{dd}/{name}.{ext}"@);
    assert(spec_render(e, c, rs) == Seq::<char>::empty());
    lemma_render_placeholder("ext"@, e, c, rs);
    lemma_render_plain("."@, t9, c, rs);
    assert("name"@[0] != "uuid"@[0]);
    lemma_render_placeholder("name"@, t8, c, rs);
    lemma_render_plain("/"@, t7, c, rs);
    lemma_render_placeholder("dd"@, t6, c, rs);
    lemma_render_plain("/"@, t5, c, rs);
    lemma_render_placeholder("mm"@, t4, c, rs);
    lemma_render_plain("/"@, t3, c, rs);
    assert("yyyy"@[0] != "uuid"@[0]);
    lemma_render_placeholder("yyyy"@, t2, c, rs);
    lemma_render_plain("images/"@, t1, c, rs);
    assert(spec_render(t0, c, rs) =~= "images/"@ + c.time.yyyy@ + "/"@ + c.time.mm@ + "/"@ + c.time.dd@
        + "/"@ + c.file_name@ + "."@ + c.extension@);
}

/// The date-and-UUID strategy stores a file under its month and a fresh
/// UUID: `images/<year>/<month>/<uuid>.<ext>`, the UUID being the first
/// random value.
pub proof fn law_date_uuid_key(c: TemplateContext, rs: Seq<Seq<char>>)
    requires
        rs.len() > 0,
    ensures
        spec_render(spec_strategy_template(RenameStrategy::DateUuid), c, rs) == "images/"@ + c.time.yyyy@
            + "/"@ + c.time.mm@ + "/"@ + rs[0] + "."@ + c.extension@,
{
    reveal_strlit("images/{yyyy}/{mm}/{uuid}.{ext}");
    reveal_strlit("images/");
    reveal_strlit("/");
    reveal_strlit(".");
    reveal_strlit("yyyy");
    reveal_strlit("yy");
    reveal_strlit("mm");
    reveal_strlit("dd");
    reveal_strlit("hh");
    reveal_strlit("min");
    reveal_strlit("ss");
    reveal_strlit("timestamp");
    reveal_strlit("unix");
    reveal_strlit("name");
    reveal_strlit("slug");
    reveal_strlit("hash");
    reveal_strlit("hash8");
    reveal_strlit("ext");
    reveal_strlit("uuid");
    reveal_strlit("random");
    let r1 = rs.drop_first();
    let e: Seq<char> = seq![];
    let t7 = seq!['{'] + "ext"@ + seq!['}'] + e;
    let t6 = "."@ + t7;
    let t5 = seq!['{'] + "uuid"@ + seq!['}'] + t6;
    let t4 = "/"@ + t5;
    let t3 = seq!['{'] + "mm"@ + seq!['}'] + t4;
    let t2 = "/"@ + t3;
    let t1 = seq!['{'] + "yyyy"@ + seq!['}'] + t2;
    let t0 = "images/"@ + t1;
    assert(t0 =~= "images/{yyyy}/{mm}/{uuid}.{ext}"@);
    assert(spec_render(e, c, r1) == Seq::<char>::empty());
    lemma_render_placeholder("ext"@, e, c, r1);
    lemma_render_plain("."@, t7, c, r1);
    lemma_render_uuid(t6, c, rs);
    lemma_render_plain("/"@, t5, c, rs);
    lemma_render_placeholder("mm"@, t4, c, rs);
    lemma_render_plain("/"@, t3, c, rs);
    assert("yyyy"@[0] != "uuid"@[0]);
    lemma_render_placeholder("yyyy"@, t2, c, rs);
    lemma_render_plain("images/"@, t1, c, rs);
    assert(spec_render(t0, c, rs) =~= "images/"@ + c.time.yyyy@ + "/"@ + c.time.mm@ + "/"@ + rs[0] + "."@
        + c.extension@);
}

/// Twelve random lowercase hex digits: the first twelve of a random
/// simple UUID's text.
fn random_twelve() -> (r: String)
    ensures
        r@.len() == 12,
        forall|i: int| 0 <= i < 12 ==> lower_hex(#[trigger] r@[i]),
{
    let u = new_simple_uuid();
    let r = crate::text::substring(u.as_str(), 0, 12);
    assert forall|i: int| 0 <= i < 12 implies lower_hex(#[trigger] r@[i]) by {
        assert(r@[i] == u@[i]);
    }
    r
}

/// Render a path template for a file: each `{uuid}` gets a fresh
/// hyphenated UUID and each `{random}` twelve fresh random lowercase hex
/// digits.
pub fn render_template(template: &str, ctx: &TemplateContext) -> (r: String)
    ensures
        exists|rs: Seq<Seq<char>>|
            {
                &&& rs.len() == random_count(template@)
                &&& r@ == spec_render(template@, *ctx, rs)
                &&& forall|j: int| 0 <= j < rs.len() ==> random_piece_fits(#[trigger] random_keys(template@)[j], rs[j])
            },
{
    let t = chars_of(template);
    let mut randoms: Vec<String> = Vec::new();
    let ghost mut keys: Seq<Seq<char>> = seq![];
    let mut i: usize = 0;
    assert(t@.subrange(0, t@.len() as int) =~= t@);
    while i < t.len()
        invariant
            i <= t.len(),
            t@ == template@,
            random_keys(t@) == keys + random_keys(t@.subrange(i as int, t@.len() as int)),
            randoms@.len() == keys.len(),
            forall|j: int| 0 <= j < keys.len() ==> random_piece_fits(#[trigger] keys[j], randoms@[j]@),
        decreases t.len() - i,
    {
        proof {
            lemma_keys_step(t@, i as int);
        }
        match placeholder_close(&t, i) {
            Some(e) => {
                let key = slice_chars(&t, i + 1, e);
                proof {
                    assert(i + 2 + (e - i - 1) == e + 1);
                }
                proof {
                    reveal_strlit("uuid");
                    reveal_strlit("random");
                }
                if chars_eq(&key, &chars_of("uuid")) {
                    let id = new_id();
                    let ghost before = randoms@;
                    randoms.push(id);
                    proof {
                        assert(key@ == "uuid"@);
                        assert(key@.len() != "random"@.len());
                        assert(random_piece_fits(key@, id@));
                        keys = keys.push(key@);
                        assert forall|j: int| 0 <= j < keys.len() implies random_piece_fits(#[trigger] keys[j], randoms@[j]@) by {
                            if j < before.len() {
                                assert(randoms@[j] == before[j]);
                            }
                        }
                    }
                } else if chars_eq(&key, &chars_of("random")) {
                    let piece = random_twelve();
                    let ghost before = randoms@;
                    randoms.push(piece);
                    proof {
                        assert(key@ != "uuid"@);
                        assert(random_piece_fits(key@, piece@));
                        keys = keys.push(key@);
                        assert forall|j: int| 0 <= j < keys.len() implies random_piece_fits(#[trigger] keys[j], randoms@[j]@) by {
                            if j < before.len() {
                                assert(randoms@[j] == before[j]);
                            }
                        }
                    }
                }
                i = e + 1;
            },
            None => {
                i = i + 1;
            },
        }
    }
    proof {
        assert(t@.subrange(t@.len() as int, t@.len() as int) =~= Seq::<char>::empty());
        assert(random_keys(Seq::<char>::empty()) =~= Seq::<Seq<char>>::empty());
        assert(keys =~= random_keys(t@));
        lemma_keys_count(template@);
    }
    let r = render_template_with(template, ctx, &randoms);
    proof {
        let rs = crate::text::views(randoms@);
        assert(rs.len() == random_count(template@));
        assert forall|j: int| 0 <= j < rs.len() implies random_piece_fits(#[trigger] random_keys(template@)[j], rs[j]) by {
            assert(rs[j] == randoms@[j]@);
            assert(keys[j] == random_keys(template@)[j]);
        }
    }
    r
}

} // verus!
