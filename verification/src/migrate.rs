//! Markdown image discovery and rewrite logic: find local image targets
//! (inline images and reference definitions) and splice in the markdown
//! of their uploaded copies.

use vstd::prelude::*;

use crate::local::{path_join, spec_path_join};
use crate::seqs::{first_index, lemma_first_index, lemma_first_index_is, lemma_first_index_none};
use crate::text::{
    chars_contains, chars_find_seq, chars_of, chars_occur_at, chars_starts_with, contains_seq,
    find_seq, is_ws, is_whitespace, occurs_at, own, push_chars, slice_chars, starts_with,
    str_starts_with, string_of, trim, trim_chars, trim_start, trim_start_chars,
};
use vstd::utf8::encode_utf8;
use pulldown_cmark::{Event, Options, Parser, Tag, TagEnd};

verus! {

// ------------------------------------------------------------------
// Local targets
// ------------------------------------------------------------------

/// The part of a target before its first `?`, then before its first `#`.
pub open spec fn strip_query(d: Seq<char>) -> Seq<char> {
    let q = match first_index(d, |c: char| c == '?') {
        Some(i) => d.subrange(0, i),
        None => d,
    };
    match first_index(q, |c: char| c == '#') {
        Some(i) => q.subrange(0, i),
        None => q,
    }
}

/// The local file a markdown target names, or `None` for an empty target,
/// a URL (`scheme://`) or a `data:` URI. Absolute paths are kept; others
/// lose their query and fragment and are joined to `base`.
pub open spec fn spec_resolve_local(dest: Seq<char>, base: Seq<char>) -> Option<Seq<char>> {
    if dest.len() == 0 || contains_seq(dest, "://"@) || starts_with(dest, "data:"@) {
        None
    } else if dest[0] == '/' {
        Some(dest)
    } else {
        Some(spec_path_join(base, strip_query(dest)))
    }
}

fn cut_at(d: &[char], c: char) -> (r: Vec<char>)
    ensures
        r@ == match first_index(d@, |x: char| x == c) {
            Some(i) => d@.subrange(0, i),
            None => d@,
        },
{
    let mut i: usize = 0;
    while i < d.len()
        invariant
            i <= d.len(),
            forall|j: int| 0 <= j < i ==> !((|x: char| x == c)(#[trigger] d@[j])),
        decreases d.len() - i,
    {
        if d[i] == c {
            proof {
                lemma_first_index_is(d@, |x: char| x == c, i as int);
            }
            return crate::text::slice_chars(d, 0, i);
        }
        i = i + 1;
    }
    proof {
        lemma_first_index_none(d@, |x: char| x == c);
        assert(d@.subrange(0, d@.len() as int) =~= d@);
    }
    crate::text::slice_chars(d, 0, d.len())
}

/// The local file a markdown target names, resolved against `base`.
pub fn resolve_local(dest: &str, base: &str) -> (r: Option<String>)
    ensures
        match r {
            Some(p) => spec_resolve_local(dest@, base@) == Some(p@),
            None => spec_resolve_local(dest@, base@) is None,
        },
{
    let d = chars_of(dest);
    if d.len() == 0 {
        return None;
    }
    let sep = chars_of("://");
    if chars_contains(&d, &sep) {
        return None;
    }
    if str_starts_with(dest, "data:") {
        return None;
    }
    if d[0] == '/' {
        return Some(own(dest));
    }
    let q = cut_at(&d, '?');
    let h = cut_at(&q, '#');
    let stripped = string_of(&h);
    Some(path_join(base, stripped.as_str()))
}

// ------------------------------------------------------------------
// Rewriting
// ------------------------------------------------------------------

/// A planned rewrite: the image target `from` is replaced by the remote
/// URL `to`; `markdown` is how the uploaded image renders.
pub struct PlannedChange {
    pub source: String,
    pub from: String,
    pub to: String,
    pub markdown: String,
}

/// `(from, to)` of each change.
pub open spec fn change_views(c: Seq<PlannedChange>) -> Seq<(Seq<char>, Seq<char>)> {
    c.map_values(|x: PlannedChange| (x.from@, x.to@))
}

/// A replacement: `[start, end)` of the source becomes `text`.
pub type Splice = (int, int, Seq<char>);

/// The last occurrence of `p` in `s` starting at or before `k`.
pub open spec fn rfind_from(s: Seq<char>, p: Seq<char>, k: int) -> Option<int>
    decreases k + 1,
{
    if k < 0 {
        None
    } else if occurs_at(s, p, k) {
        Some(k)
    } else {
        rfind_from(s, p, k - 1)
    }
}

/// The last occurrence of `p` inside `s[..limit]`.
pub open spec fn rfind_before(s: Seq<char>, p: Seq<char>, limit: int) -> Option<int> {
    rfind_from(s, p, limit - p.len())
}

/// `[pos, end)` meets one of the recorded splices.
pub open spec fn overlaps(ranges: Seq<Splice>, pos: int, end: int) -> bool {
    exists|i: int| 0 <= i < ranges.len() && !(end <= #[trigger] ranges[i].0 || pos >= ranges[i].1)
}

/// The rightmost occurrence of `p` in `s[..limit]` that meets no recorded
/// splice.
pub open spec fn find_slot(s: Seq<char>, p: Seq<char>, ranges: Seq<Splice>, limit: int) -> Option<int>
    decreases limit,
{
    match rfind_before(s, p, limit) {
        None => None,
        Some(pos) => if !overlaps(ranges, pos, pos + p.len()) {
            Some(pos)
        } else if 0 < pos < limit {
            find_slot(s, p, ranges, pos)
        } else {
            None
        },
    }
}

/// The splices planned for the changes, in change order.
pub open spec fn plan_ranges(s: Seq<char>, changes: Seq<(Seq<char>, Seq<char>)>) -> Seq<Splice>
    decreases changes.len(),
{
    if changes.len() == 0 {
        seq![]
    } else {
        let rs = plan_ranges(s, changes.drop_last());
        let c = changes.last();
        match find_slot(s, c.0, rs, s.len() as int) {
            Some(pos) => rs.push((pos, pos + c.0.len(), c.1)),
            None => rs,
        }
    }
}

/// Insert a splice before the first one that starts left of it.
pub open spec fn insert_desc(sorted: Seq<Splice>, r: Splice) -> Seq<Splice> {
    match first_index(sorted, |x: Splice| x.0 < r.0) {
        Some(k) => sorted.insert(k, r),
        None => sorted.push(r),
    }
}

/// The splices ordered by start, rightmost first (ties keep their order).
pub open spec fn sort_desc(rs: Seq<Splice>) -> Seq<Splice>
    decreases rs.len(),
{
    if rs.len() == 0 {
        seq![]
    } else {
        insert_desc(sort_desc(rs.drop_last()), rs.last())
    }
}

/// `s` with `[start, end)` replaced (unchanged if out of bounds).
pub open spec fn apply_one(s: Seq<char>, r: Splice) -> Seq<char> {
    if 0 <= r.0 <= r.1 <= s.len() {
        s.subrange(0, r.0) + r.2 + s.subrange(r.1, s.len() as int)
    } else {
        s
    }
}

/// The splices applied one after another.
pub open spec fn apply_seq(s: Seq<char>, rs: Seq<Splice>) -> Seq<char>
    decreases rs.len(),
{
    if rs.len() == 0 {
        s
    } else {
        apply_one(apply_seq(s, rs.drop_last()), rs.last())
    }
}

/// What `rewrite_markdown` makes of a document.
pub open spec fn spec_rewrite(s: Seq<char>, changes: Seq<(Seq<char>, Seq<char>)>) -> Seq<char> {
    if changes.len() == 0 {
        s
    } else {
        apply_seq(s, sort_desc(plan_ranges(s, changes)))
    }
}

pub open spec fn splice_views(v: Seq<(usize, usize, Vec<char>)>) -> Seq<Splice> {
    v.map_values(|x: (usize, usize, Vec<char>)| (x.0 as int, x.1 as int, x.2@))
}

fn rfind_in(s: &[char], p: &[char], limit: usize) -> (r: Option<usize>)
    requires
        limit <= s.len(),
    ensures
        match r {
            Some(k) => rfind_before(s@, p@, limit as int) == Some(k as int) && k + p.len() <= limit,
            None => rfind_before(s@, p@, limit as int) is None,
        },
{
    if p.len() > limit {
        return None;
    }
    let mut k: usize = limit - p.len();
    loop
        invariant
            k + p.len() <= limit,
            limit <= s.len(),
            rfind_before(s@, p@, limit as int) == rfind_from(s@, p@, k as int),
        decreases k,
    {
        if chars_occur_at(s, p, k) {
            return Some(k);
        }
        if k == 0 {
            assert(rfind_from(s@, p@, -1) is None);
            return None;
        }
        k = k - 1;
    }
}

fn overlaps_any(ranges: &Vec<(usize, usize, Vec<char>)>, pos: usize, end: usize) -> (r: bool)
    ensures
        r == overlaps(splice_views(ranges@), pos as int, end as int),
{
    let mut i: usize = 0;
    while i < ranges.len()
        invariant
            i <= ranges.len(),
            forall|j: int|
                0 <= j < i ==> (end as int <= #[trigger] splice_views(ranges@)[j].0 || pos as int
                    >= splice_views(ranges@)[j].1),
        decreases ranges.len() - i,
    {
        let (a, b) = (ranges[i].0, ranges[i].1);
        assert(splice_views(ranges@)[i as int].0 == a as int);
        if !(end <= a || pos >= b) {
            return true;
        }
        i = i + 1;
    }
    false
}

fn slot_for(s: &[char], p: &[char], ranges: &Vec<(usize, usize, Vec<char>)>) -> (r: Option<usize>)
    ensures
        match r {
            Some(k) => find_slot(s@, p@, splice_views(ranges@), s.len() as int) == Some(k as int)
                && k + p.len() <= s.len(),
            None => find_slot(s@, p@, splice_views(ranges@), s.len() as int) is None,
        },
{
    let mut limit: usize = s.len();
    loop
        invariant
            limit <= s.len(),
            find_slot(s@, p@, splice_views(ranges@), s.len() as int) == find_slot(
                s@,
                p@,
                splice_views(ranges@),
                limit as int,
            ),
        decreases limit,
    {
        match rfind_in(s, p, limit) {
            None => return None,
            Some(pos) => {
                let end = pos + p.len();
                if !overlaps_any(ranges, pos, end) {
                    return Some(pos);
                }
                if pos == 0 || pos >= limit {
                    return None;
                }
                limit = pos;
            },
        }
    }
}

fn insert_sorted(sorted: &mut Vec<(usize, usize, Vec<char>)>, r: (usize, usize, Vec<char>))
    ensures
        splice_views(final(sorted)@) == insert_desc(
            splice_views(old(sorted)@),
            (r.0 as int, r.1 as int, r.2@),
        ),
{
    let ghost rv: Splice = (r.0 as int, r.1 as int, r.2@);
    let ghost sv = splice_views(sorted@);
    let mut k: usize = 0;
    while k < sorted.len() && !(sorted[k].0 < r.0)
        invariant
            k <= sorted.len(),
            sv == splice_views(sorted@),
            rv == (r.0 as int, r.1 as int, r.2@),
            forall|j: int| 0 <= j < k ==> !((|x: Splice| x.0 < rv.0)(#[trigger] sv[j])),
        decreases sorted.len() - k,
    {
        assert(sv[k as int].0 == sorted@[k as int].0 as int);
        k = k + 1;
    }
    if k < sorted.len() {
        proof {
            assert(sv[k as int].0 == sorted@[k as int].0 as int);
            lemma_first_index_is(sv, |x: Splice| x.0 < rv.0, k as int);
        }
        sorted.insert(k, r);
        proof {
            assert(splice_views(sorted@) =~= sv.insert(k as int, rv));
        }
    } else {
        proof {
            lemma_first_index_none(sv, |x: Splice| x.0 < rv.0);
        }
        sorted.push(r);
        proof {
            assert(splice_views(sorted@) =~= sv.push(rv));
        }
    }
}

fn apply_splice(s: Vec<char>, r: &(usize, usize, Vec<char>)) -> (out: Vec<char>)
    ensures
        out@ == apply_one(s@, (r.0 as int, r.1 as int, r.2@)),
{
    if r.0 <= r.1 && r.1 <= s.len() {
        let mut out = crate::text::slice_chars(&s, 0, r.0);
        push_chars(&mut out, &r.2);
        let tail = crate::text::slice_chars(&s, r.1, s.len());
        push_chars(&mut out, &tail);
        out
    } else {
        s
    }
}

/// Replace, for each change, the rightmost occurrence of its `from` text
/// that meets no earlier change's, by the change's URL; replacements
/// are applied right to left.
pub fn rewrite_markdown(source: &str, changes: &[PlannedChange]) -> (r: String)
    ensures
        r@ == spec_rewrite(source@, change_views(changes@)),
{
    if changes.len() == 0 {
        return own(source);
    }
    let s = chars_of(source);
    let mut ranges: Vec<(usize, usize, Vec<char>)> = Vec::new();
    let mut i: usize = 0;
    while i < changes.len()
        invariant
            i <= changes.len(),
            s@ == source@,
            splice_views(ranges@) == plan_ranges(source@, change_views(changes@).subrange(0, i as int)),
        decreases changes.len() - i,
    {
        let from = chars_of(changes[i].from.as_str());
        let md = chars_of(changes[i].to.as_str());
        let ghost before = splice_views(ranges@);
        match slot_for(&s, &from, &ranges) {
            Some(pos) => {
                ranges.push((pos, pos + from.len(), md));
                proof {
                    assert(splice_views(ranges@) =~= before.push(
                        (pos as int, pos + from@.len(), md@),
                    ));
                }
            },
            None => {},
        }
        proof {
            let cs = change_views(changes@).subrange(0, i + 1);
            assert(cs.drop_last() =~= change_views(changes@).subrange(0, i as int));
            assert(cs.last() == (changes@[i as int].from@, changes@[i as int].to@));
        }
        i = i + 1;
    }
    proof {
        assert(change_views(changes@).subrange(0, changes@.len() as int) =~= change_views(changes@));
    }
    let ghost planned = splice_views(ranges@);
    let mut sorted: Vec<(usize, usize, Vec<char>)> = Vec::new();
    let mut rest = ranges;
    let ghost mut taken: Seq<(usize, usize, Vec<char>)> = Seq::empty();
    proof {
        assert(taken + rest@ =~= rest@);
        assert(splice_views(taken) =~= Seq::<Splice>::empty());
    }
    while rest.len() > 0
        invariant
            planned == splice_views(taken + rest@),
            splice_views(sorted@) == sort_desc(splice_views(taken)),
        decreases rest.len(),
    {
        let ghost prev_rest = rest@;
        let ghost prev_taken = taken;
        let r = rest.remove(0);
        proof {
            taken = prev_taken.push(r);
            assert(splice_views(taken).drop_last() =~= splice_views(prev_taken));
            assert(splice_views(taken).last() == (r.0 as int, r.1 as int, r.2@));
            assert(taken + rest@ =~= prev_taken + prev_rest);
        }
        insert_sorted(&mut sorted, r);
    }
    proof {
        assert(taken + rest@ =~= taken);
    }
    let mut out = s;
    let mut k: usize = 0;
    while k < sorted.len()
        invariant
            k <= sorted.len(),
            out@ == apply_seq(source@, splice_views(sorted@).subrange(0, k as int)),
        decreases sorted.len() - k,
    {
        out = apply_splice(out, &sorted[k]);
        proof {
            let t = splice_views(sorted@).subrange(0, k + 1);
            assert(t.drop_last() =~= splice_views(sorted@).subrange(0, k as int));
        }
        k = k + 1;
    }
    proof {
        assert(splice_views(sorted@).subrange(0, sorted@.len() as int) =~= splice_views(sorted@));
    }
    string_of(&out)
}

// ------------------------------------------------------------------
// Scanning
// ------------------------------------------------------------------

/// One local image reference found in a markdown document. Offsets are
/// byte offsets into the source.
pub struct LocalImage {
    /// The target as written in the source.
    pub dest: String,
    /// The local file it names.
    pub resolved: String,
    pub span_start: usize,
    pub span_end: usize,
    pub full_start: usize,
    pub full_end: usize,
}

/// `(dest, resolved, span_start, span_end, full_start, full_end)`.
pub type ImageView = (Seq<char>, Seq<char>, int, int, int, int);

pub open spec fn image_view(i: LocalImage) -> ImageView {
    (i.dest@, i.resolved@, i.span_start as int, i.span_end as int, i.full_start as int, i.full_end as int)
}

pub open spec fn image_views(v: Seq<LocalImage>) -> Seq<ImageView> {
    v.map_values(|i: LocalImage| image_view(i))
}

/// The byte length of the UTF-8 encoding of a text.
pub open spec fn byte_len(s: Seq<char>) -> int {
    encode_utf8(s).len() as int
}

/// Where the line starting at `i` ends: at the next `\n`, or the end.
pub open spec fn line_end(s: Seq<char>, i: int) -> int
    decreases s.len() - i,
{
    if i >= s.len() || s[i] == '\n' {
        i
    } else {
        line_end(s, i + 1)
    }
}

/// The lines of `s` from position `i` on, as `str::lines` yields them
/// (a `\r` right before the `\n` is dropped), each with its start.
pub open spec fn lines_from(s: Seq<char>, i: int) -> Seq<(int, Seq<char>)>
    decreases s.len() - i,
{
    if i < 0 || i >= s.len() {
        seq![]
    } else {
        proof {
            lemma_line_end(s, i);
        }
        let e = line_end(s, i);
        let raw = s.subrange(i, e);
        let line = if e < s.len() && raw.len() > 0 && raw.last() == '\r' {
            raw.drop_last()
        } else {
            raw
        };
        seq![(i, line)] + if e < s.len() {
            lines_from(s, e + 1)
        } else {
            seq![]
        }
    }
}

pub open spec fn is_quote(c: char) -> bool {
    c == '"' || c == '\''
}

/// `s` without leading and trailing quote characters.
pub open spec fn strip_quotes(s: Seq<char>) -> Seq<char>
    decreases s.len(),
{
    if s.len() > 0 && is_quote(s[0]) {
        strip_quotes(s.drop_first())
    } else if s.len() > 0 && is_quote(s.last()) {
        strip_quotes(s.drop_last())
    } else {
        s
    }
}

/// The first whitespace-separated word of a trimmed, non-empty text.
pub open spec fn first_word(s: Seq<char>) -> Seq<char> {
    match first_index(s, |c: char| is_ws(c)) {
        Some(i) => s.subrange(0, i),
        None => s,
    }
}

/// The target of a reference definition line `[label]: target "title"`.
pub open spec fn ref_def_target(line: Seq<char>) -> Option<Seq<char>> {
    let t = trim_start(line);
    if !(t.len() > 0 && t[0] == '[') {
        None
    } else {
        match find_seq(t, "]:"@) {
            None => None,
            Some(c) => {
                let after = trim(t.subrange(c + "]:"@.len(), t.len() as int));
                if after.len() == 0 || after[0] == '<' {
                    None
                } else {
                    Some(strip_quotes(first_word(after)))
                }
            },
        }
    }
}

/// The images that reference definitions in the given lines name.
pub open spec fn ref_images(s: Seq<char>, lines: Seq<(int, Seq<char>)>, base: Seq<char>) -> Seq<ImageView>
    decreases lines.len(),
{
    if lines.len() == 0 {
        seq![]
    } else {
        let rest = ref_images(s, lines.drop_last(), base);
        let (i, line) = lines.last();
        match ref_def_target(line) {
            Some(dest) => match spec_resolve_local(dest, base) {
                Some(res) => {
                    let start = byte_len(s.subrange(0, i));
                    rest.push((dest, res, start, start + byte_len(line), start, start + byte_len(line)))
                },
                None => rest,
            },
            None => rest,
        }
    }
}

pub proof fn lemma_line_end(s: Seq<char>, i: int)
    requires
        0 <= i <= s.len(),
    ensures
        i <= line_end(s, i) <= s.len(),
    decreases s.len() - i,
{
    if i < s.len() && s[i] != '\n' {
        lemma_line_end(s, i + 1);
    }
}

fn find_line_end(s: &[char], i: usize) -> (e: usize)
    requires
        i <= s.len(),
    ensures
        e as int == line_end(s@, i as int),
        i <= e <= s.len(),
{
    let mut e = i;
    while e < s.len() && s[e] != '\n'
        invariant
            i <= e <= s.len(),
            line_end(s@, i as int) == line_end(s@, e as int),
        decreases s.len() - e,
    {
        e = e + 1;
    }
    e
}

fn strip_quote_chars(s: &[char]) -> (r: Vec<char>)
    ensures
        r@ == strip_quotes(s@),
{
    let mut a: usize = 0;
    let mut b: usize = s.len();
    assert(s@.subrange(0, s.len() as int) =~= s@);
    while a < b && (s[a] == '"' || s[a] == '\'' || s[b - 1] == '"' || s[b - 1] == '\'')
        invariant
            a <= b <= s.len(),
            strip_quotes(s@) == strip_quotes(s@.subrange(a as int, b as int)),
        decreases b - a,
    {
        let ghost t = s@.subrange(a as int, b as int);
        if s[a] == '"' || s[a] == '\'' {
            assert(t.drop_first() =~= s@.subrange(a + 1, b as int));
            a = a + 1;
        } else {
            assert(t.drop_last() =~= s@.subrange(a as int, b - 1));
            b = b - 1;
        }
    }
    slice_chars(s, a, b)
}

fn first_word_chars(s: &[char]) -> (r: Vec<char>)
    ensures
        r@ == first_word(s@),
{
    let mut i: usize = 0;
    while i < s.len()
        invariant
            i <= s.len(),
            forall|j: int| 0 <= j < i ==> !((|c: char| is_ws(c))(#[trigger] s@[j])),
        decreases s.len() - i,
    {
        if is_whitespace(s[i]) {
            proof {
                lemma_first_index_is(s@, |c: char| is_ws(c), i as int);
            }
            return slice_chars(s, 0, i);
        }
        i = i + 1;
    }
    proof {
        lemma_first_index_none(s@, |c: char| is_ws(c));
        assert(s@.subrange(0, s.len() as int) =~= s@);
    }
    slice_chars(s, 0, s.len())
}

fn ref_target_of(line: &[char]) -> (r: Option<Vec<char>>)
    ensures
        match r {
            Some(d) => ref_def_target(line@) == Some(d@),
            None => ref_def_target(line@) is None,
        },
{
    let t = trim_start_chars(line);
    if !(t.len() > 0 && t[0] == '[') {
        return None;
    }
    let pat = chars_of("]:");
    match chars_find_seq(&t, &pat) {
        None => None,
        Some(c) => {
            proof {
                crate::text::lemma_first_occ(t@, pat@, 0);
            }
            let tail = slice_chars(&t, c + pat.len(), t.len());
            let after = trim_chars(&tail);
            if after.len() == 0 || after[0] == '<' {
                return None;
            }
            let w = first_word_chars(&after);
            Some(strip_quote_chars(&w))
        },
    }
}

fn byte_length(s: &[char]) -> (n: usize)
    ensures
        n as int == byte_len(s@),
{
    let t = string_of(s);
    t.as_str().as_bytes().len()
}

/// The local images that reference definitions (`[label]: ./pic.png`) in a
/// document name, one per line, with the line's byte span.
pub fn scan_reference_defs(source: &str, base: &str) -> (r: Vec<LocalImage>)
    ensures
        image_views(r@) == ref_images(source@, lines_from(source@, 0), base@),
{
    let s = chars_of(source);
    let total = source.as_bytes().len();
    let mut out: Vec<LocalImage> = Vec::new();
    let mut i: usize = 0;
    let ghost mut done: Seq<(int, Seq<char>)> = Seq::empty();
    while i < s.len()
        invariant
            s@ == source@,
            total as int == byte_len(source@),
            i <= s.len(),
            lines_from(s@, 0) == done + lines_from(s@, i as int),
            image_views(out@) == ref_images(s@, done, base@),
        decreases s.len() - i,
    {
        let e = find_line_end(&s, i);
        let raw = slice_chars(&s, i, e);
        let line = if e < s.len() && raw.len() > 0 && raw[raw.len() - 1] == '\r' {
            slice_chars(&raw, 0, raw.len() - 1)
        } else {
            raw
        };
        let ghost entry: (int, Seq<char>) = (i as int, line@);
        proof {
            assert(line@ =~= (if e < s.len() && s@.subrange(i as int, e as int).len() > 0
                && s@.subrange(i as int, e as int).last() == '\r' {
                s@.subrange(i as int, e as int).drop_last()
            } else {
                s@.subrange(i as int, e as int)
            }));
            assert(lines_from(s@, i as int) == seq![entry] + (if (e as int) < s.len() {
                lines_from(s@, e + 1)
            } else {
                seq![]
            }));
        }
        let ghost prev = done;
        match ref_target_of(&line) {
            Some(dest) => {
                let d = string_of(&dest);
                match resolve_local(d.as_str(), base) {
                    Some(res) => {
                        let prefix = slice_chars(&s, 0, i);
                        let start = byte_length(&prefix);
                        let len = byte_length(&line);
                        proof {
                            lemma_byte_len_prefix(s@, i as int);
                            let rest = s@.subrange(i as int, s.len() as int);
                            assert(rest =~= line@ + rest.subrange(line@.len() as int, rest.len() as int));
                            lemma_encode_utf8_add(line@, rest.subrange(line@.len() as int, rest.len() as int));
                            assert(byte_len(s@) <= total);
                        }
                        let end = start + len;
                        out.push(LocalImage { dest: d, resolved: res, span_start: start, span_end: end, full_start: start, full_end: end });
                    },
                    None => {},
                }
            },
            None => {},
        }
        proof {
            done = prev.push(entry);
            assert(done.drop_last() =~= prev);
            assert(image_views(out@) =~= ref_images(s@, done, base@));
        }
        if e < s.len() {
            i = e + 1;
            proof {
                assert(lines_from(s@, 0) =~= done + lines_from(s@, i as int));
            }
        } else {
            i = s.len();
            proof {
                assert(lines_from(s@, 0) =~= done + lines_from(s@, i as int));
            }
        }
    }
    out
}

/// A prefix and the line after it fit in the text's byte length.
proof fn lemma_byte_len_prefix(s: Seq<char>, i: int)
    requires
        0 <= i <= s.len(),
    ensures
        byte_len(s.subrange(0, i)) + byte_len(s.subrange(i, s.len() as int)) == byte_len(s),
{
    assert(s =~= s.subrange(0, i) + s.subrange(i, s.len() as int));
    lemma_encode_utf8_add(s.subrange(0, i), s.subrange(i, s.len() as int));
}

proof fn lemma_encode_utf8_add(a: Seq<char>, b: Seq<char>)
    ensures
        encode_utf8(a + b) == encode_utf8(a) + encode_utf8(b),
    decreases a.len(),
{
    if a.len() == 0 {
        assert(a + b =~= b);
        assert(encode_utf8(a) =~= Seq::<u8>::empty());
        assert(encode_utf8(a) + encode_utf8(b) =~= encode_utf8(b));
    } else {
        lemma_encode_utf8_add(a.drop_first(), b);
        assert((a + b).drop_first() =~= a.drop_first() + b);
        assert((a + b)[0] == a[0]);
        assert(encode_utf8(a + b) =~= encode_utf8(a) + encode_utf8(b));
    }
}

/// A markdown parser event, as far as image scanning needs it.
pub enum MdEvent {
    /// An image starts: its target and the byte range of the image syntax.
    ImageStart { dest: String, start: usize, end: usize },
    ImageEnd,
    Other,
}

/// The value of a parser event.
pub enum MdEventView {
    ImageStart(Seq<char>, int, int),
    ImageEnd,
    Other,
}

pub open spec fn event_view(e: MdEvent) -> MdEventView {
    match e {
        MdEvent::ImageStart { dest, start, end } => MdEventView::ImageStart(dest@, start as int, end as int),
        MdEvent::ImageEnd => MdEventView::ImageEnd,
        MdEvent::Other => MdEventView::Other,
    }
}

pub open spec fn event_views(v: Seq<MdEvent>) -> Seq<MdEventView> {
    v.map_values(|e: MdEvent| event_view(e))
}

/// The events `pulldown_cmark` reports for a document (tables and footnotes
/// enabled), with their byte ranges.
pub uninterp spec fn spec_markdown_events(source: Seq<char>) -> Seq<MdEventView>;

/// Calls `pulldown_cmark::Parser::new_ext` (tables and footnotes on) and
/// walks `into_offset_iter`, telling image starts (with their destination
/// and range) and image ends from other events. The events are taken to be
/// a function of the text alone.
#[verifier::external_body]
fn markdown_events(source: &str) -> (r: Vec<MdEvent>)
    ensures
        event_views(r@) == spec_markdown_events(source@),
{
    let mut opts = Options::empty();
    opts.insert(Options::ENABLE_TABLES);
    opts.insert(Options::ENABLE_FOOTNOTES);
    Parser::new_ext(source, opts).into_offset_iter().map(|(event, range)| match event {
        Event::Start(Tag::Image { dest_url, .. }) => MdEvent::ImageStart { dest: dest_url.to_string(), start: range.start, end: range.end },
        Event::End(TagEnd::Image) => MdEvent::ImageEnd,
        _ => MdEvent::Other,
    }).collect()
}

/// The open image, if any: `(dest, resolved, start, end)`.
pub type OpenImage = Option<(Seq<char>, Seq<char>, int, int)>;

/// The inline images found in the events so far, and the image still open.
pub open spec fn scan_events(events: Seq<MdEventView>, base: Seq<char>) -> (Seq<ImageView>, OpenImage)
    decreases events.len(),
{
    if events.len() == 0 {
        (seq![], None)
    } else {
        let (imgs, cur) = scan_events(events.drop_last(), base);
        match events.last() {
            MdEventView::ImageStart(d, st, en) => match spec_resolve_local(d, base) {
                Some(res) => (imgs, Some((d, res, st, en))),
                None => (imgs, cur),
            },
            MdEventView::ImageEnd => match cur {
                Some((d, res, st, en)) => (imgs.push((d, res, st, en, st, en)), None),
                None => (imgs, None),
            },
            MdEventView::Other => (imgs, cur),
        }
    }
}

/// Insert an image after every image that starts no later than it.
pub open spec fn insert_by_start(sorted: Seq<ImageView>, x: ImageView) -> Seq<ImageView> {
    match first_index(sorted, |y: ImageView| y.4 > x.4) {
        Some(k) => sorted.insert(k, x),
        None => sorted.push(x),
    }
}

/// The images ordered by start; equal starts keep their order.
pub open spec fn sort_by_start(s: Seq<ImageView>) -> Seq<ImageView>
    decreases s.len(),
{
    if s.len() == 0 {
        seq![]
    } else {
        insert_by_start(sort_by_start(s.drop_last()), s.last())
    }
}

/// Runs of images with the same resolved path and span start, collapsed to
/// their first.
pub open spec fn dedup_images(s: Seq<ImageView>) -> Seq<ImageView>
    decreases s.len(),
{
    if s.len() == 0 {
        seq![]
    } else {
        let d = dedup_images(s.drop_last());
        if d.len() > 0 && d.last().1 == s.last().1 && d.last().2 == s.last().2 {
            d
        } else {
            d.push(s.last())
        }
    }
}

/// What `scan_markdown` finds in a document whose parser events are
/// `events`.
pub open spec fn spec_scan(source: Seq<char>, events: Seq<MdEventView>, base: Seq<char>) -> Seq<ImageView> {
    let inline = scan_events(events, base).0;
    let refs = ref_images(source, lines_from(source, 0), base);
    dedup_images(sort_by_start(inline + refs))
}

fn insert_image(sorted: &mut Vec<LocalImage>, x: LocalImage)
    ensures
        image_views(final(sorted)@) == insert_by_start(image_views(old(sorted)@), image_view(x)),
{
    let ghost sv = image_views(sorted@);
    let ghost xv = image_view(x);
    let mut k: usize = 0;
    while k < sorted.len() && !(sorted[k].full_start > x.full_start)
        invariant
            k <= sorted.len(),
            sv == image_views(sorted@),
            xv == image_view(x),
            forall|j: int| 0 <= j < k ==> !((|y: ImageView| y.4 > xv.4)(#[trigger] sv[j])),
        decreases sorted.len() - k,
    {
        k = k + 1;
    }
    if k < sorted.len() {
        proof {
            lemma_first_index_is(sv, |y: ImageView| y.4 > xv.4, k as int);
        }
        sorted.insert(k, x);
        proof {
            assert(image_views(sorted@) =~= sv.insert(k as int, xv));
        }
    } else {
        proof {
            lemma_first_index_none(sv, |y: ImageView| y.4 > xv.4);
        }
        sorted.push(x);
        proof {
            assert(image_views(sorted@) =~= sv.push(xv));
        }
    }
}

/// Scan a markdown document (paths resolved against `base`) for local
/// images: inline images and reference definitions, ordered by position,
/// with repeats of the same file at the same position dropped.
pub fn scan_markdown(source: &str, base: &str) -> (r: Vec<LocalImage>)
    ensures
        image_views(r@) == spec_scan(source@, spec_markdown_events(source@), base@),
{
    let events = markdown_events(source);
    scan_markdown_events(source, events, base)
}

/// The local images of a markdown document given its parser events: the
/// images the events delimit, then its reference definitions, ordered by
/// position, with repeats of the same file at the same position dropped.
pub fn scan_markdown_events(source: &str, events: Vec<MdEvent>, base: &str) -> (r: Vec<LocalImage>)
    ensures
        image_views(r@) == spec_scan(source@, event_views(events@), base@),
{
    let ghost ev = event_views(events@);
    let mut images: Vec<LocalImage> = Vec::new();
    let mut current: Option<(String, String, usize, usize)> = None;
    let mut i: usize = 0;
    while i < events.len()
        invariant
            i <= events.len(),
            ev == event_views(events@),
            scan_events(ev.subrange(0, i as int), base@) == (
                image_views(images@),
                match current {
                    Some(c) => Some((c.0@, c.1@, c.2 as int, c.3 as int)),
                    None => None,
                },
            ),
        decreases events.len() - i,
    {
        let ghost prev_imgs = image_views(images@);
        match &events[i] {
            MdEvent::ImageStart { dest, start, end } => {
                match resolve_local(dest.as_str(), base) {
                    Some(res) => {
                        current = Some((dest.clone(), res, *start, *end));
                    },
                    None => {},
                }
            },
            MdEvent::ImageEnd => {
                let mut taken: Option<(String, String, usize, usize)> = None;
                std::mem::swap(&mut taken, &mut current);
                match taken {
                    Some((d, res, st, en)) => {
                        images.push(LocalImage { dest: d, resolved: res, span_start: st, span_end: en, full_start: st, full_end: en });
                        proof {
                            assert(image_views(images@) =~= prev_imgs.push(image_view(images@.last())));
                        }
                    },
                    None => {},
                }
            },
            MdEvent::Other => {},
        }
        proof {
            let t = ev.subrange(0, i + 1);
            assert(t.drop_last() =~= ev.subrange(0, i as int));
            assert(t.last() == event_view(events@[i as int]));
        }
        i = i + 1;
    }
    proof {
        assert(ev.subrange(0, events.len() as int) =~= ev);
    }
    let refs = scan_reference_defs(source, base);
    let ghost all = image_views(images@) + image_views(refs@);
    let mut rest = refs;
    let mut pending = images;
    pending.append(&mut rest);
    proof {
        assert(image_views(pending@) =~= all);
    }
    let mut sorted: Vec<LocalImage> = Vec::new();
    let ghost mut taken: Seq<LocalImage> = Seq::empty();
    proof {
        assert(taken + pending@ =~= pending@);
        assert(image_views(taken) =~= Seq::<ImageView>::empty());
    }
    let ghost all_items = pending@;
    while pending.len() > 0
        invariant
            all_items == taken + pending@,
            image_views(all_items) == all,
            image_views(sorted@) == sort_by_start(image_views(taken)),
        decreases pending.len(),
    {
        let ghost prev_pending = pending@;
        let ghost prev_taken = taken;
        let x = pending.remove(0);
        proof {
            taken = prev_taken.push(x);
            assert(image_views(taken).drop_last() =~= image_views(prev_taken));
            assert(taken + pending@ =~= prev_taken + prev_pending);
        }
        insert_image(&mut sorted, x);
    }
    proof {
        assert(taken + pending@ =~= taken);
    }
    let mut out: Vec<LocalImage> = Vec::new();
    let ghost sv = image_views(sorted@);
    let ghost mut seen: Seq<LocalImage> = Seq::empty();
    proof {
        assert(seen + sorted@ =~= sorted@);
        assert(image_views(seen) =~= Seq::<ImageView>::empty());
    }
    let ghost sorted_items = sorted@;
    while sorted.len() > 0
        invariant
            sorted_items == seen + sorted@,
            image_views(sorted_items) == sv,
            image_views(out@) == dedup_images(image_views(seen)),
        decreases sorted.len(),
    {
        let ghost prev_sorted = sorted@;
        let ghost prev_seen = seen;
        let x = sorted.remove(0);
        proof {
            seen = prev_seen.push(x);
            assert(image_views(seen).drop_last() =~= image_views(prev_seen));
            assert(seen + sorted@ =~= prev_seen + prev_sorted);
        }
        let dup = out.len() > 0 && crate::text::str_eq(out[out.len() - 1].resolved.as_str(), x.resolved.as_str())
            && out[out.len() - 1].span_start == x.span_start;
        if !dup {
            let ghost before = image_views(out@);
            out.push(x);
            proof {
                assert(image_views(out@) =~= before.push(image_view(x)));
            }
        }
    }
    proof {
        assert(seen + sorted@ =~= seen);
    }
    out
}

// ------------------------------------------------------------------
// What a rewrite means
// ------------------------------------------------------------------

/// `p` occurs in `s` at `at` and nowhere else.
pub open spec fn occurs_once(s: Seq<char>, p: Seq<char>, at: int) -> bool {
    occurs_at(s, p, at) && forall|q: int| #[trigger] occurs_at(s, p, q) ==> q == at
}

/// Each change's `from` text is not empty and occurs exactly once in `s`,
/// at `at[i]`, and no two of these occurrences overlap.
pub open spec fn separate_changes(s: Seq<char>, c: Seq<(Seq<char>, Seq<char>)>, at: Seq<int>) -> bool {
    &&& at.len() == c.len()
    &&& forall|i: int| 0 <= i < c.len() ==> (#[trigger] c[i]).0.len() > 0 && occurs_once(s, c[i].0, at[i])
    &&& forall|i: int, j: int|
        0 <= i < c.len() && 0 <= j < c.len() && i != j ==> #[trigger] at[i] + c[i].0.len() <= #[trigger] at[j]
            || at[j] + c[j].0.len() <= at[i]
}

/// A change whose (non-empty) `from` text starts at `i`.
pub open spec fn starts_here(s: Seq<char>, i: int) -> spec_fn((Seq<char>, Seq<char>)) -> bool {
    |x: (Seq<char>, Seq<char>)| x.0.len() > 0 && occurs_at(s, x.0, i)
}

/// `s` from `i` on, read left to right: where a change's `from` text
/// starts, that change's `to` text is written and the `from` text skipped;
/// every other character is kept.
pub open spec fn replaced_from(s: Seq<char>, c: Seq<(Seq<char>, Seq<char>)>, i: int) -> Seq<char>
    decreases s.len() - i,
{
    if i < 0 || i >= s.len() {
        seq![]
    } else {
        match first_index(c, starts_here(s, i)) {
            Some(j) => {
                proof {
                    lemma_first_index(c, starts_here(s, i));
                }
                c[j].1 + replaced_from(s, c, i + c[j].0.len())
            },
            None => seq![s[i]] + replaced_from(s, c, i + 1),
        }
    }
}

/// The last occurrence at or before `k` of a text that occurs once, at
/// `a <= k`, is that one.
proof fn lemma_rfind_once(s: Seq<char>, p: Seq<char>, a: int, k: int)
    requires
        occurs_once(s, p, a),
        a <= k,
    ensures
        rfind_from(s, p, k) == Some(a),
    decreases k + 1,
{
    if k != a {
        assert(!occurs_at(s, p, k));
        lemma_rfind_once(s, p, a, k - 1);
    }
}

/// The splices planned for separate changes: change `i` replaces
/// `[at[i], at[i] + |from|)` by its `to` text.
pub open spec fn planned(c: Seq<(Seq<char>, Seq<char>)>, at: Seq<int>) -> Seq<Splice> {
    Seq::new(c.len(), |i: int| (at[i], at[i] + c[i].0.len(), c[i].1))
}

proof fn lemma_plan_separate(s: Seq<char>, c: Seq<(Seq<char>, Seq<char>)>, at: Seq<int>)
    requires
        separate_changes(s, c, at),
    ensures
        plan_ranges(s, c) == planned(c, at),
    decreases c.len(),
{
    if c.len() > 0 {
        let n = c.len() - 1;
        let c0 = c.drop_last();
        let a0 = at.drop_last();
        assert forall|i: int| 0 <= i < c0.len() implies (#[trigger] c0[i]).0.len() > 0 && occurs_once(s, c0[i].0, a0[i]) by {
            assert(c0[i] == c[i]);
        }
        assert forall|i: int, j: int|
            0 <= i < c0.len() && 0 <= j < c0.len() && i != j implies #[trigger] a0[i] + c0[i].0.len() <= #[trigger] a0[j]
                || a0[j] + c0[j].0.len() <= a0[i] by {
            assert(c0[i] == c[i] && c0[j] == c[j] && a0[i] == at[i] && a0[j] == at[j]);
            assert(at[i] + c[i].0.len() <= at[j] || at[j] + c[j].0.len() <= at[i]);
        }
        lemma_plan_separate(s, c0, a0);
        let rs = plan_ranges(s, c0);
        let x = c.last();
        assert(x == c[n]);
        let a = at[n];
        assert(x.0.len() > 0 && occurs_once(s, x.0, a));
        lemma_rfind_once(s, x.0, a, s.len() - x.0.len());
        assert(!overlaps(rs, a, a + x.0.len())) by {
            if overlaps(rs, a, a + x.0.len()) {
                let i = choose|i: int| 0 <= i < rs.len() && !(a + x.0.len() <= #[trigger] rs[i].0 || a >= rs[i].1);
                assert(rs[i] == planned(c0, a0)[i]);
                assert(c0[i] == c[i] && a0[i] == at[i]);
                assert(at[i] + c[i].0.len() <= at[n] || at[n] + c[n].0.len() <= at[i]);
            }
        }
        assert(find_slot(s, x.0, rs, s.len() as int) == Some(a));
        assert(plan_ranges(s, c) =~= planned(c, at));
    } else {
        assert(plan_ranges(s, c) =~= planned(c, at));
    }
}

/// Starts strictly decrease along the sequence.
pub open spec fn strictly_desc(rs: Seq<Splice>) -> bool {
    forall|a: int, b: int| 0 <= a < b < rs.len() ==> #[trigger] rs[a].0 > #[trigger] rs[b].0
}

proof fn lemma_insert_desc(sorted: Seq<Splice>, r: Splice)
    requires
        strictly_desc(sorted),
        forall|i: int| 0 <= i < sorted.len() ==> (#[trigger] sorted[i]).0 != r.0,
    ensures
        strictly_desc(insert_desc(sorted, r)),
        insert_desc(sorted, r).len() == sorted.len() + 1,
        forall|x: Splice| #[trigger] insert_desc(sorted, r).contains(x) <==> sorted.contains(x) || x == r,
{
    let p = |x: Splice| x.0 < r.0;
    lemma_first_index(sorted, p);
    let t = insert_desc(sorted, r);
    match first_index(sorted, p) {
        Some(k) => {
            assert(t == sorted.insert(k, r));
            assert forall|a: int, b: int| 0 <= a < b < t.len() implies #[trigger] t[a].0 > #[trigger] t[b].0 by {
                if a < k {
                    assert(t[a] == sorted[a]);
                    assert(!p(sorted[a]));
                    if b < k {
                        assert(t[b] == sorted[b]);
                    } else if b > k {
                        assert(t[b] == sorted[b - 1]);
                    }
                } else if a == k {
                    assert(t[b] == sorted[b - 1]);
                    if b - 1 > k {
                        assert(sorted[k].0 > sorted[b - 1].0);
                    }
                } else {
                    assert(t[a] == sorted[a - 1]);
                    assert(t[b] == sorted[b - 1]);
                }
            }
            assert forall|x: Splice| #[trigger] t.contains(x) <==> sorted.contains(x) || x == r by {
                if t.contains(x) {
                    let j = choose|j: int| 0 <= j < t.len() && t[j] == x;
                    if j < k {
                        assert(t[j] == sorted[j]);
                    } else if j > k {
                        assert(t[j] == sorted[j - 1]);
                    }
                }
                if sorted.contains(x) {
                    let j = choose|j: int| 0 <= j < sorted.len() && sorted[j] == x;
                    if j < k {
                        assert(t[j] == sorted[j]);
                    } else {
                        assert(t[j + 1] == sorted[j]);
                    }
                }
                if x == r {
                    assert(t[k] == r);
                }
            }
        },
        None => {
            assert(t == sorted.push(r));
            assert forall|a: int, b: int| 0 <= a < b < t.len() implies #[trigger] t[a].0 > #[trigger] t[b].0 by {
                assert(t[a] == sorted[a]);
                if b < sorted.len() {
                    assert(t[b] == sorted[b]);
                } else {
                    assert(!p(sorted[a]));
                }
            }
            assert forall|x: Splice| #[trigger] t.contains(x) <==> sorted.contains(x) || x == r by {
                if t.contains(x) {
                    let j = choose|j: int| 0 <= j < t.len() && t[j] == x;
                    if j < sorted.len() {
                        assert(t[j] == sorted[j]);
                    }
                }
                if sorted.contains(x) {
                    let j = choose|j: int| 0 <= j < sorted.len() && sorted[j] == x;
                    assert(t[j] == sorted[j]);
                }
                if x == r {
                    assert(t[sorted.len() as int] == r);
                }
            }
        },
    }
}

/// Sorting splices with distinct starts orders them strictly by start,
/// rightmost first, and keeps exactly the same splices.
proof fn lemma_sort_desc(rs: Seq<Splice>)
    requires
        forall|i: int, j: int| 0 <= i < j < rs.len() ==> #[trigger] rs[i].0 != #[trigger] rs[j].0,
    ensures
        strictly_desc(sort_desc(rs)),
        sort_desc(rs).len() == rs.len(),
        forall|x: Splice| #[trigger] sort_desc(rs).contains(x) <==> rs.contains(x),
    decreases rs.len(),
{
    if rs.len() > 0 {
        let r0 = rs.drop_last();
        assert forall|i: int, j: int| 0 <= i < j < r0.len() implies #[trigger] r0[i].0 != #[trigger] r0[j].0 by {
            assert(r0[i] == rs[i] && r0[j] == rs[j]);
        }
        lemma_sort_desc(r0);
        let sd = sort_desc(r0);
        let r = rs.last();
        assert forall|i: int| 0 <= i < sd.len() implies (#[trigger] sd[i]).0 != r.0 by {
            assert(sd.contains(sd[i]));
            assert(r0.contains(sd[i]));
            let j = choose|j: int| 0 <= j < r0.len() && r0[j] == sd[i];
            assert(rs[j] == r0[j]);
            assert(rs[rs.len() - 1] == r);
        }
        lemma_insert_desc(sd, r);
        assert forall|x: Splice| #[trigger] sort_desc(rs).contains(x) <==> rs.contains(x) by {
            if rs.contains(x) {
                let j = choose|j: int| 0 <= j < rs.len() && rs[j] == x;
                if j < r0.len() {
                    assert(r0[j] == x);
                    assert(r0.contains(x));
                }
            }
            if r0.contains(x) {
                let j = choose|j: int| 0 <= j < r0.len() && r0[j] == x;
                assert(rs[j] == x);
            }
            if x == r {
                assert(rs[rs.len() - 1] == x);
            }
        }
    }
}

/// A splice of `[i, end)` inside `s`, with `i < end`.
spec fn splice_at(s: Seq<char>, i: int) -> spec_fn(Splice) -> bool {
    |x: Splice| x.0 == i && i < x.1 && x.1 <= s.len()
}

/// `s` from `i` on, read left to right, with each splice that starts at a
/// position reached written in place of its range.
spec fn spliced_from(s: Seq<char>, rs: Seq<Splice>, i: int) -> Seq<char>
    decreases s.len() - i,
{
    if i < 0 || i >= s.len() {
        seq![]
    } else {
        match first_index(rs, splice_at(s, i)) {
            Some(k) => {
                proof {
                    lemma_first_index(rs, splice_at(s, i));
                }
                rs[k].2 + spliced_from(s, rs, rs[k].1)
            },
            None => seq![s[i]] + spliced_from(s, rs, i + 1),
        }
    }
}

/// Where no splice starts, the text is copied.
proof fn lemma_spliced_gap(s: Seq<char>, rs: Seq<Splice>, i: int, m: int)
    requires
        0 <= i <= m <= s.len(),
        forall|k: int| 0 <= k < rs.len() ==> (#[trigger] rs[k]).0 < i || rs[k].0 >= m,
    ensures
        spliced_from(s, rs, i) == s.subrange(i, m) + spliced_from(s, rs, m),
    decreases m - i,
{
    if i == m {
        assert(s.subrange(i, m) =~= Seq::<char>::empty());
        assert(Seq::<char>::empty() + spliced_from(s, rs, m) =~= spliced_from(s, rs, m));
    } else {
        lemma_first_index(rs, splice_at(s, i));
        assert(first_index(rs, splice_at(s, i)) is None);
        lemma_spliced_gap(s, rs, i + 1, m);
        assert(s.subrange(i, m) =~= seq![s[i]] + s.subrange(i + 1, m));
        assert(seq![s[i]] + (s.subrange(i + 1, m) + spliced_from(s, rs, m)) =~= s.subrange(i, m)
            + spliced_from(s, rs, m));
    }
}

/// A splice left of `j` plays no part from `j` on.
proof fn lemma_spliced_drop_left(s: Seq<char>, r: Seq<Splice>, l: Splice, j: int)
    requires
        l.0 < j,
    ensures
        spliced_from(s, r.push(l), j) == spliced_from(s, r, j),
    decreases s.len() - j,
{
    if 0 <= j < s.len() {
        let p = splice_at(s, j);
        lemma_first_index(r, p);
        assert(!p(l));
        match first_index(r, p) {
            Some(k) => {
                crate::seqs::lemma_first_index_push(r, l, p);
                assert(r.push(l)[k] == r[k]);
                lemma_spliced_drop_left(s, r, l, r[k].1);
            },
            None => {
                assert forall|t: int| 0 <= t < r.push(l).len() implies !p(#[trigger] r.push(l)[t]) by {
                    if t < r.len() {
                        assert(r.push(l)[t] == r[t]);
                    }
                }
                lemma_first_index_none(r.push(l), p);
                lemma_spliced_drop_left(s, r, l, j + 1);
            },
        }
    }
}

/// Applying splices rightmost first, each inside the text and left of
/// the one before, leaves every earlier position where it was: the result
/// is the text read left to right with each splice in place.
proof fn lemma_apply_sorted(s: Seq<char>, d: Seq<Splice>)
    requires
        strictly_desc(d),
        forall|k: int| 0 <= k < d.len() ==> 0 <= (#[trigger] d[k]).0 < d[k].1 <= s.len(),
        forall|a: int, b: int| 0 <= a < b < d.len() ==> #[trigger] d[b].1 <= #[trigger] d[a].0,
    ensures
        apply_seq(s, d) == spliced_from(s, d, 0),
    decreases d.len(),
{
    if d.len() == 0 {
        lemma_spliced_gap(s, d, 0, s.len() as int);
        assert(s.subrange(0, s.len() as int) =~= s);
        assert(spliced_from(s, d, s.len() as int) == Seq::<char>::empty());
        assert(s + Seq::<char>::empty() =~= s);
    } else {
        let r = d.drop_last();
        let l = d.last();
        let n = d.len() - 1;
        assert(l == d[n]);
        assert forall|a: int, b: int| 0 <= a < b < r.len() implies #[trigger] r[a].0 > #[trigger] r[b].0 by {
            assert(r[a] == d[a] && r[b] == d[b]);
        }
        assert forall|k: int| 0 <= k < r.len() implies 0 <= (#[trigger] r[k]).0 < r[k].1 <= s.len() by {
            assert(r[k] == d[k]);
        }
        assert forall|a: int, b: int| 0 <= a < b < r.len() implies #[trigger] r[b].1 <= #[trigger] r[a].0 by {
            assert(r[a] == d[a] && r[b] == d[b]);
        }
        lemma_apply_sorted(s, r);
        assert forall|k: int| 0 <= k < r.len() implies (#[trigger] r[k]).0 < 0 || r[k].0 >= l.1 by {
            assert(r[k] == d[k]);
            assert(d[n].1 <= d[k].0);
        }
        lemma_spliced_gap(s, r, 0, l.1);
        let x = spliced_from(s, r, 0);
        let tail = spliced_from(s, r, l.1);
        assert(x == s.subrange(0, l.1) + tail);
        assert(apply_seq(s, d) == apply_one(x, l));
        assert(apply_one(x, l) =~= s.subrange(0, l.0) + l.2 + tail);
        assert(d =~= r.push(l));
        assert forall|k: int| 0 <= k < d.len() implies (#[trigger] d[k]).0 < 0 || d[k].0 >= l.0 by {
            if k < n {
                assert(d[n].1 <= d[k].0);
            }
        }
        lemma_spliced_gap(s, d, 0, l.0);
        let p = splice_at(s, l.0);
        assert forall|t: int| 0 <= t < r.len() implies !p(#[trigger] r[t]) by {
            assert(r[t] == d[t]);
            assert(d[n].1 <= d[t].0);
        }
        lemma_first_index_none(r, p);
        crate::seqs::lemma_first_index_push_new(r, l, p);
        assert(first_index(d, p) == Some(n));
        assert(spliced_from(s, d, l.0) == l.2 + spliced_from(s, d, l.1));
        lemma_spliced_drop_left(s, r, l, l.1);
        assert(spliced_from(s, d, 0) =~= s.subrange(0, l.0) + (l.2 + tail));
    }
}

/// Splice lists with the same splices, no two starting at one place, read
/// the same.
proof fn lemma_spliced_same(s: Seq<char>, d: Seq<Splice>, p: Seq<Splice>, i: int)
    requires
        forall|x: Splice| #[trigger] d.contains(x) <==> p.contains(x),
        forall|a: int, b: int| 0 <= a < p.len() && 0 <= b < p.len() && #[trigger] p[a].0 == #[trigger] p[b].0 ==> a == b,
    ensures
        spliced_from(s, d, i) == spliced_from(s, p, i),
    decreases s.len() - i,
{
    if 0 <= i < s.len() {
        let q = splice_at(s, i);
        lemma_first_index(d, q);
        lemma_first_index(p, q);
        match first_index(d, q) {
            Some(k) => {
                assert(d.contains(d[k]));
                assert(p.contains(d[k]));
                let b = choose|b: int| 0 <= b < p.len() && p[b] == d[k];
                match first_index(p, q) {
                    Some(k2) => {
                        assert(p[k2].0 == i && p[b].0 == i);
                        assert(k2 == b);
                        lemma_spliced_same(s, d, p, d[k].1);
                    },
                    None => {
                        assert(!q(p[b]));
                    },
                }
            },
            None => {
                match first_index(p, q) {
                    Some(k2) => {
                        assert(p.contains(p[k2]));
                        assert(d.contains(p[k2]));
                        let b = choose|b: int| 0 <= b < d.len() && d[b] == p[k2];
                        assert(!q(d[b]));
                    },
                    None => {
                        lemma_spliced_same(s, d, p, i + 1);
                    },
                }
            },
        }
    }
}

/// The first indices of two sequences under predicates that agree
/// position by position are the same.
proof fn lemma_first_index_agree<A, B>(a: Seq<A>, b: Seq<B>, p: spec_fn(A) -> bool, q: spec_fn(B) -> bool)
    requires
        a.len() == b.len(),
        forall|k: int| 0 <= k < a.len() ==> (p(#[trigger] a[k]) <==> q(b[k])),
    ensures
        first_index(a, p) == first_index(b, q),
{
    lemma_first_index(a, p);
    lemma_first_index(b, q);
    match first_index(a, p) {
        Some(k) => {
            assert forall|j: int| 0 <= j < k implies !q(#[trigger] b[j]) by {
                assert(!p(a[j]));
            }
            assert(q(b[k]));
            lemma_first_index_is(b, q, k);
        },
        None => {
            assert forall|j: int| 0 <= j < b.len() implies !q(#[trigger] b[j]) by {
                assert(!p(a[j]));
            }
            lemma_first_index_none(b, q);
        },
    }
}

/// The planned splices of separate changes read as the changes replaced
/// in place.
proof fn lemma_planned_reads_replaced(s: Seq<char>, c: Seq<(Seq<char>, Seq<char>)>, at: Seq<int>, i: int)
    requires
        separate_changes(s, c, at),
    ensures
        spliced_from(s, planned(c, at), i) == replaced_from(s, c, i),
    decreases s.len() - i,
{
    if 0 <= i < s.len() {
        let pl = planned(c, at);
        let q = splice_at(s, i);
        let h = starts_here(s, i);
        assert forall|k: int| 0 <= k < pl.len() implies (q(#[trigger] pl[k]) <==> h(c[k])) by {
            assert(c[k].0.len() > 0 && occurs_once(s, c[k].0, at[k]));
            if h(c[k]) {
                assert(occurs_at(s, c[k].0, i));
            }
        }
        lemma_first_index_agree(pl, c, q, h);
        lemma_first_index(c, h);
        match first_index(c, h) {
            Some(k) => {
                assert(c[k].0.len() > 0 && occurs_once(s, c[k].0, at[k]));
                assert(occurs_at(s, c[k].0, i));
                assert(at[k] == i);
                lemma_planned_reads_replaced(s, c, at, i + c[k].0.len());
            },
            None => {
                lemma_planned_reads_replaced(s, c, at, i + 1);
            },
        }
    }
}

/// When each change's `from` text occurs exactly once in the document and
/// these occurrences do not overlap, the rewrite replaces each of them in
/// place by its change's `to` text and keeps everything else: the result
/// is the document read left to right with every `from` text replaced,
/// whatever the order of the changes (no replacement shifts another).
pub proof fn law_rewrite_replaces_in_place(
    s: Seq<char>,
    c: Seq<(Seq<char>, Seq<char>)>,
    at: Seq<int>,
)
    requires
        separate_changes(s, c, at),
    ensures
        spec_rewrite(s, c) == replaced_from(s, c, 0),
{
    lemma_plan_separate(s, c, at);
    let pl = planned(c, at);
    assert forall|a: int, b: int| 0 <= a < pl.len() && 0 <= b < pl.len() && #[trigger] pl[a].0 == #[trigger] pl[b].0 implies a == b by {
        assert(c[a].0.len() > 0 && c[b].0.len() > 0);
        if a != b {
            assert(at[a] + c[a].0.len() <= at[b] || at[b] + c[b].0.len() <= at[a]);
        }
    }
    assert forall|i: int, j: int| 0 <= i < j < pl.len() implies #[trigger] pl[i].0 != #[trigger] pl[j].0 by {
        assert(c[i].0.len() > 0 && c[j].0.len() > 0);
        assert(at[i] + c[i].0.len() <= at[j] || at[j] + c[j].0.len() <= at[i]);
    }
    lemma_sort_desc(pl);
    let d = sort_desc(pl);
    assert forall|k: int| 0 <= k < d.len() implies 0 <= (#[trigger] d[k]).0 < d[k].1 <= s.len() by {
        assert(d.contains(d[k]));
        assert(pl.contains(d[k]));
        let j = choose|j: int| 0 <= j < pl.len() && pl[j] == d[k];
        assert(c[j].0.len() > 0 && occurs_once(s, c[j].0, at[j]));
    }
    assert forall|a: int, b: int| 0 <= a < b < d.len() implies #[trigger] d[b].1 <= #[trigger] d[a].0 by {
        assert(d.contains(d[a]) && d.contains(d[b]));
        assert(pl.contains(d[a]) && pl.contains(d[b]));
        let i = choose|i: int| 0 <= i < pl.len() && pl[i] == d[a];
        let j = choose|j: int| 0 <= j < pl.len() && pl[j] == d[b];
        assert(d[a].0 > d[b].0);
        assert(i != j);
        assert(at[i] + c[i].0.len() <= at[j] || at[j] + c[j].0.len() <= at[i]);
    }
    lemma_apply_sorted(s, d);
    lemma_spliced_same(s, d, pl, 0);
    lemma_planned_reads_replaced(s, c, at, 0);
    if c.len() == 0 {
        assert(d == Seq::<Splice>::empty());
    }
}

} // verus!
