//! Building blocks of the V4 (HMAC-SHA256) request signatures used by the
//! S3 and Aliyun OSS uploaders: hex and percent encoding, the canonical
//! header block, and the four-step signing-key chain.
//!
//! SHA-256 and HMAC-SHA256 come from the `sha2` and `hmac` crates. Their
//! results are named (`spec_sha256`, `spec_hmac_sha256`); everything built
//! on top of them is specified exactly over those names.

use vstd::prelude::*;
use vstd::utf8::encode_utf8;
use hmac::Mac;
use sha2::Digest;

use crate::smap::SortedMap;
use crate::error::{error_view, Failure, ZpicError};
use crate::text::{chars_of, lower, lower_chars, opt_view, own, push_chars, push_str, string_of, trim, trim_chars};

verus! {

/// The SHA-256 digest of a byte string.
pub uninterp spec fn spec_sha256(data: Seq<u8>) -> Seq<u8>;

/// The HMAC-SHA256 tag of `msg` under `key`.
pub uninterp spec fn spec_hmac_sha256(key: Seq<u8>, msg: Seq<u8>) -> Seq<u8>;

/// Calls `sha2::Sha256::digest`. The digest is taken to be a function of the
/// input alone, and 32 bytes long (SHA-256's output size).
#[verifier::external_body]
fn sha256(data: &[u8]) -> (r: Vec<u8>)
    ensures
        r@ == spec_sha256(data@),
        r@.len() == 32,
{
    sha2::Sha256::digest(data).to_vec()
}

/// Calls `hmac::Hmac::<sha2::Sha256>::new_from_slice`, `update` and
/// `finalize`. HMAC accepts keys of any length, so the key setup never fails.
/// The tag is taken to be a function of key and message alone, and 32 bytes
/// long.
#[verifier::external_body]
fn hmac_sha256(key: &[u8], msg: &[u8]) -> (r: Vec<u8>)
    ensures
        r@ == spec_hmac_sha256(key@, msg@),
        r@.len() == 32,
{
    let mut mac = hmac::Hmac::<sha2::Sha256>::new_from_slice(key).expect("any key length");
    mac.update(msg);
    mac.finalize().into_bytes().to_vec()
}

/// The current UTC time formatted as `%Y%m%dT%H%M%SZ`.
///
/// Calls `chrono::Utc::now` and formats it. The year is zero-padded to four
/// digits and every other field to two, so the text is at least 16
/// characters long; nothing else is stated of it.
#[verifier::external_body]
pub(crate) fn amz_datetime_now() -> (r: String)
    ensures
        r@.len() >= 16,
{
    chrono::Utc::now().format("%Y%m%dT%H%M%SZ").to_string()
}

// ------------------------------------------------------------------
// Hex
// ------------------------------------------------------------------

/// Lower-case hex digit of `n < 16`.
pub open spec fn hex_digit(n: nat) -> char {
    if n < 10 {
        ((n + 48) as u8) as char
    } else {
        ((n + 87) as u8) as char
    }
}

/// Upper-case hex digit of `n < 16`.
pub open spec fn hex_digit_upper(n: nat) -> char {
    if n < 10 {
        ((n + 48) as u8) as char
    } else {
        ((n + 55) as u8) as char
    }
}

/// Lower-case hex rendering of a byte string, two digits per byte.
pub open spec fn hex_lower(b: Seq<u8>) -> Seq<char>
    decreases b.len(),
{
    if b.len() == 0 {
        seq![]
    } else {
        hex_lower(b.drop_last()) + seq![
            hex_digit((b.last() / 16) as nat),
            hex_digit((b.last() % 16) as nat),
        ]
    }
}

fn hex_char(n: u8) -> (c: char)
    requires
        n < 16,
    ensures
        c == hex_digit(n as nat),
{
    if n < 10 {
        (n + 48) as char
    } else {
        (n + 87) as char
    }
}

fn hex_char_upper(n: u8) -> (c: char)
    requires
        n < 16,
    ensures
        c == hex_digit_upper(n as nat),
{
    if n < 10 {
        (n + 48) as char
    } else {
        (n + 55) as char
    }
}

/// Lower-case hex of a byte string.
pub fn hex_encode(bytes: &[u8]) -> (r: String)
    ensures
        r@ == hex_lower(bytes@),
{
    let mut out: Vec<char> = Vec::new();
    let mut i: usize = 0;
    while i < bytes.len()
        invariant
            i <= bytes.len(),
            out@ == hex_lower(bytes@.subrange(0, i as int)),
        decreases bytes.len() - i,
    {
        let b = bytes[i];
        out.push(hex_char(b / 16));
        out.push(hex_char(b % 16));
        proof {
            let s = bytes@.subrange(0, i + 1);
            assert(s.drop_last() =~= bytes@.subrange(0, i as int));
            assert(s.last() == b);
            assert(out@ =~= hex_lower(s));
        }
        i = i + 1;
    }
    proof {
        assert(bytes@.subrange(0, bytes.len() as int) =~= bytes@);
    }
    string_of(&out)
}

/// Lower-case hex of the SHA-256 digest of `data`.
pub fn sha256_hex(data: &[u8]) -> (r: String)
    ensures
        r@ == hex_lower(spec_sha256(data@)),
{
    let d = sha256(data);
    hex_encode(d.as_slice())
}

/// A lower-case hex digit: `0`-`9` or `a`-`f`.
pub open spec fn lower_hex_digit(c: char) -> bool {
    ('0' <= c && c <= '9') || ('a' <= c && c <= 'f')
}

/// A value ending with a signature of 64 lower-case hex digits.
pub open spec fn ends_with_hex_signature(v: Seq<char>) -> bool {
    &&& v.len() >= 64
    &&& forall|i: int| v.len() - 64 <= i < v.len() ==> lower_hex_digit(#[trigger] v[i])
}

proof fn lemma_hex_digit(n: nat)
    requires
        n < 16,
    ensures
        lower_hex_digit(hex_digit(n)),
{
    if n < 10 {
        assert('0' as u32 == 48);
        assert((((n + 48) as u8) as char) as u32 == n + 48);
    } else {
        assert('a' as u32 == 97);
        assert((((n + 87) as u8) as char) as u32 == n + 87);
    }
}

/// The hex rendering has two lower-case hex digits per byte.
pub proof fn lemma_hex_lower_shape(b: Seq<u8>)
    ensures
        hex_lower(b).len() == 2 * b.len(),
        forall|i: int| 0 <= i < hex_lower(b).len() ==> lower_hex_digit(#[trigger] hex_lower(b)[i]),
    decreases b.len(),
{
    if b.len() > 0 {
        lemma_hex_lower_shape(b.drop_last());
        lemma_hex_digit((b.last() / 16) as nat);
        lemma_hex_digit((b.last() % 16) as nat);
        let p = hex_lower(b.drop_last());
        assert forall|i: int| 0 <= i < hex_lower(b).len() implies lower_hex_digit(#[trigger] hex_lower(b)[i]) by {
            if i < p.len() {
                assert(hex_lower(b)[i] == p[i]);
            }
        }
    }
}

/// Lower-case hex of the HMAC-SHA256 tag of `msg` under `key`.
pub fn hex_hmac_sha256(key: &[u8], msg: &[u8]) -> (r: String)
    ensures
        r@ == hex_lower(spec_hmac_sha256(key@, msg@)),
        r@.len() == 64,
        forall|i: int| 0 <= i < r@.len() ==> lower_hex_digit(#[trigger] r@[i]),
{
    let t = hmac_sha256(key, msg);
    proof {
        lemma_hex_lower_shape(t@);
    }
    hex_encode(t.as_slice())
}

// ------------------------------------------------------------------
// Percent encoding of object paths
// ------------------------------------------------------------------

/// Bytes kept as they are: `A-Z a-z 0-9 - _ . ~` and `/`.
pub open spec fn path_safe(b: u8) -> bool {
    (97 <= b <= 122) || (65 <= b <= 90) || (48 <= b <= 57) || b == 45 || b == 95 || b == 46
        || b == 126 || b == 47
}

/// One byte of a percent-encoded path.
pub open spec fn pct_byte(b: u8) -> Seq<char> {
    if path_safe(b) {
        seq![b as char]
    } else {
        seq!['%', hex_digit_upper((b / 16) as nat), hex_digit_upper((b % 16) as nat)]
    }
}

/// Percent encoding of a byte string, byte by byte.
pub open spec fn pct_encode(b: Seq<u8>) -> Seq<char>
    decreases b.len(),
{
    if b.len() == 0 {
        seq![]
    } else {
        pct_encode(b.drop_last()) + pct_byte(b.last())
    }
}

fn is_path_safe(b: u8) -> (r: bool)
    ensures
        r == path_safe(b),
{
    (97 <= b && b <= 122) || (65 <= b && b <= 90) || (48 <= b && b <= 57) || b == 45 || b == 95
        || b == 46 || b == 126 || b == 47
}

/// Percent-encode a path: unreserved characters and `/` stay, every other
/// byte of the UTF-8 encoding becomes `%XX` (upper-case hex).
pub fn percent_encode_path(input: &str) -> (r: String)
    ensures
        r@ == pct_encode(encode_utf8(input@)),
{
    let bytes = input.as_bytes();
    let mut out: Vec<char> = Vec::new();
    let mut i: usize = 0;
    while i < bytes.len()
        invariant
            i <= bytes.len(),
            out@ == pct_encode(bytes@.subrange(0, i as int)),
        decreases bytes.len() - i,
    {
        let b = bytes[i];
        if is_path_safe(b) {
            out.push(b as char);
        } else {
            out.push('%');
            out.push(hex_char_upper(b / 16));
            out.push(hex_char_upper(b % 16));
        }
        proof {
            let s = bytes@.subrange(0, i + 1);
            assert(s.drop_last() =~= bytes@.subrange(0, i as int));
            assert(s.last() == b);
            assert(out@ =~= pct_encode(s));
        }
        i = i + 1;
    }
    proof {
        assert(bytes@.subrange(0, bytes.len() as int) =~= bytes@);
    }
    string_of(&out)
}

// ------------------------------------------------------------------
// Canonical headers
// ------------------------------------------------------------------

/// `<lower-case key>:<trimmed value>\n`.
pub open spec fn header_line(k: Seq<char>, v: Seq<char>) -> Seq<char> {
    lower(k) + seq![':'] + trim(v) + seq!['\n']
}

/// The canonical header block: one line per entry, in order.
pub open spec fn header_block(e: Seq<(Seq<char>, Seq<char>)>) -> Seq<char>
    decreases e.len(),
{
    if e.len() == 0 {
        seq![]
    } else {
        header_block(e.drop_last()) + header_line(e.last().0, e.last().1)
    }
}

/// The keys of the entries joined with `;`.
pub open spec fn join_keys(e: Seq<(Seq<char>, Seq<char>)>) -> Seq<char>
    decreases e.len(),
{
    if e.len() == 0 {
        seq![]
    } else if e.len() == 1 {
        e[0].0
    } else {
        join_keys(e.drop_last()) + seq![';'] + e.last().0
    }
}

/// Character views of string pairs.
pub open spec fn pair_views(s: Seq<(String, String)>) -> Seq<(Seq<char>, Seq<char>)> {
    s.map_values(|p: (String, String)| (p.0@, p.1@))
}

/// Character views of the entries of a string-valued sorted map.
pub open spec fn entry_views(s: Seq<(Seq<char>, String)>) -> Seq<(Seq<char>, Seq<char>)> {
    s.map_values(|p: (Seq<char>, String)| (p.0, p.1@))
}

fn push_header_line(out: &mut Vec<char>, k: &str, v: &str)
    ensures
        final(out)@ == old(out)@ + header_line(k@, v@),
{
    let kc = chars_of(k);
    let kl = lower_chars(&kc);
    push_chars(out, &kl);
    out.push(':');
    let vc = chars_of(v);
    let vt = trim_chars(&vc);
    push_chars(out, &vt);
    out.push('\n');
}

/// Render the canonical header block of an ordered entry list.
pub fn render_header_block(entries: &Vec<(String, String)>) -> (r: String)
    ensures
        r@ == header_block(pair_views(entries@)),
{
    let mut out: Vec<char> = Vec::new();
    let mut i: usize = 0;
    while i < entries.len()
        invariant
            i <= entries.len(),
            out@ == header_block(pair_views(entries@).subrange(0, i as int)),
        decreases entries.len() - i,
    {
        push_header_line(&mut out, entries[i].0.as_str(), entries[i].1.as_str());
        proof {
            let s = pair_views(entries@).subrange(0, i + 1);
            assert(s.drop_last() =~= pair_views(entries@).subrange(0, i as int));
        }
        i = i + 1;
    }
    proof {
        assert(pair_views(entries@).subrange(0, entries.len() as int) =~= pair_views(entries@));
    }
    string_of(&out)
}

/// Join the keys of an ordered entry list with `;`.
pub fn render_key_list(entries: &Vec<(String, String)>) -> (r: String)
    ensures
        r@ == join_keys(pair_views(entries@)),
{
    let mut out: Vec<char> = Vec::new();
    let mut i: usize = 0;
    while i < entries.len()
        invariant
            i <= entries.len(),
            out@ == join_keys(pair_views(entries@).subrange(0, i as int)),
        decreases entries.len() - i,
    {
        if i > 0 {
            out.push(';');
        }
        push_str(&mut out, entries[i].0.as_str());
        proof {
            let s = pair_views(entries@).subrange(0, i + 1);
            assert(s.drop_last() =~= pair_views(entries@).subrange(0, i as int));
            if i == 0 {
                assert(out@ =~= s[0].0);
            }
        }
        i = i + 1;
    }
    proof {
        assert(pair_views(entries@).subrange(0, entries.len() as int) =~= pair_views(entries@));
    }
    string_of(&out)
}

/// The canonical header block of a header map, walked in key order.
pub fn canonicalize_headers(headers: &SortedMap<String>) -> (r: String)
    ensures
        r@ == header_block(entry_views(headers.seq())),
{
    let mut out: Vec<char> = Vec::new();
    let n = headers.len();
    let mut i: usize = 0;
    while i < n
        invariant
            n == headers.seq().len(),
            i <= n,
            out@ == header_block(entry_views(headers.seq()).subrange(0, i as int)),
        decreases n - i,
    {
        let k = headers.key_at(i);
        let v = headers.value_at(i);
        push_header_line(&mut out, k.as_str(), v.as_str());
        proof {
            let s = entry_views(headers.seq()).subrange(0, i + 1);
            assert(s.drop_last() =~= entry_views(headers.seq()).subrange(0, i as int));
        }
        i = i + 1;
    }
    proof {
        assert(entry_views(headers.seq()).subrange(0, n as int) =~= entry_views(headers.seq()));
    }
    string_of(&out)
}

/// An entry `(k, v)` when `v` is present, else nothing.
pub open spec fn opt_entry(k: Seq<char>, v: Option<Seq<char>>) -> Seq<(Seq<char>, Seq<char>)> {
    match v {
        Some(x) => seq![(k, x)],
        None => seq![],
    }
}

/// Append the entry `(k, v)`.
pub fn push_pair(v: &mut Vec<(String, String)>, k: &str, val: &str)
    ensures
        pair_views(final(v)@) == pair_views(old(v)@).push((k@, val@)),
{
    v.push((own(k), own(val)));
    proof {
        assert(pair_views(v@) =~= pair_views(old(v)@).push((k@, val@)));
    }
}

/// Append the entry `(k, v)` when `v` is present.
pub fn push_opt_pair(v: &mut Vec<(String, String)>, k: &str, val: &Option<String>)
    ensures
        pair_views(final(v)@) == pair_views(old(v)@) + opt_entry(k@, opt_view(*val)),
{
    match val {
        Some(x) => {
            push_pair(v, k, x.as_str());
            proof {
                assert(pair_views(v@) =~= pair_views(old(v)@) + opt_entry(k@, opt_view(*val)));
            }
        },
        None => {
            assert(pair_views(v@) =~= pair_views(old(v)@) + opt_entry(k@, opt_view(*val)));
        },
    }
}

/// A signed request, ready to send: the URL and the headers to put on it.
pub struct SignedRequest {
    pub url: String,
    pub headers: Vec<(String, String)>,
}

impl SignedRequest {
    pub open spec fn view(&self) -> (Seq<char>, Seq<(Seq<char>, Seq<char>)>) {
        (self.url@, pair_views(self.headers@))
    }
}

/// A signing outcome as a value.
pub open spec fn signed_view(r: Result<SignedRequest, ZpicError>) -> Result<
    (Seq<char>, Seq<(Seq<char>, Seq<char>)>),
    Failure,
> {
    match r {
        Ok(s) => Ok(s.view()),
        Err(e) => Err(error_view(e)),
    }
}

// ------------------------------------------------------------------
// Signing key
// ------------------------------------------------------------------

/// The four-step HMAC chain
/// `prefix + secret -> date -> region -> service -> terminator`.
pub open spec fn spec_signing_key(
    prefix: Seq<char>,
    secret: Seq<char>,
    date: Seq<char>,
    region: Seq<char>,
    service: Seq<char>,
    terminator: Seq<char>,
) -> Seq<u8> {
    let k_date = spec_hmac_sha256(encode_utf8(prefix + secret), encode_utf8(date));
    let k_region = spec_hmac_sha256(k_date, encode_utf8(region));
    let k_service = spec_hmac_sha256(k_region, encode_utf8(service));
    spec_hmac_sha256(k_service, encode_utf8(terminator))
}

/// Derive a V4 signing key.
pub fn signing_key(
    prefix: &str,
    secret: &str,
    date: &str,
    region: &str,
    service: &str,
    terminator: &str,
) -> (r: Vec<u8>)
    ensures
        r@ == spec_signing_key(prefix@, secret@, date@, region@, service@, terminator@),
        r@.len() == 32,
{
    let mut k: Vec<char> = Vec::new();
    push_str(&mut k, prefix);
    push_str(&mut k, secret);
    let ks = string_of(&k);
    let k_date = hmac_sha256(ks.as_str().as_bytes(), date.as_bytes());
    let k_region = hmac_sha256(k_date.as_slice(), region.as_bytes());
    let k_service = hmac_sha256(k_region.as_slice(), service.as_bytes());
    hmac_sha256(k_service.as_slice(), terminator.as_bytes())
}

} // verus!
