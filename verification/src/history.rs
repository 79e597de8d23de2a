//! Upload history: entry ids, the rows a successful upload adds, and the
//! query that lists them. The SQLite store itself lives outside the
//! library.

use vstd::prelude::*;

use crate::sigv4::{hex_digit, hex_lower};
use crate::text::{dec, dec_chars, own, push_chars, push_str, string_of};
use crate::upload::UploadOutput;

verus! {

/// One row of the `uploads` table.
pub struct HistoryEntry {
    pub id: String,
    /// RFC 3339 time of the upload.
    pub created_at: String,
    pub source_path: Option<String>,
    pub uploader: String,
    pub key: String,
    pub url: String,
    pub markdown: String,
    pub mime: Option<String>,
    pub size: Option<i64>,
    pub width: Option<i64>,
    pub height: Option<i64>,
    pub status: String,
}

/// Filter for listing history.
pub struct ListFilter {
    pub uploader: Option<String>,
    pub limit: Option<usize>,
}

impl Default for ListFilter {
    fn default() -> (r: Self)
        ensures
            r.uploader is None,
            r.limit is None,
    {
        ListFilter { uploader: None, limit: None }
    }
}

/// The columns every query reads, in order.
pub open spec fn select_prefix() -> Seq<char> {
    "SELECT id, created_at, source_path, uploader, key, url, markdown, mime, size, width, height, status FROM uploads"@
}

/// The listing query for a filter, most recent first, and its bound
/// parameters.
pub open spec fn spec_list_query(uploader: Option<Seq<char>>, limit: Option<nat>) -> (Seq<char>, Seq<Seq<char>>) {
    let filtered = match uploader {
        Some(_) => select_prefix() + " WHERE uploader = ?"@,
        None => select_prefix(),
    };
    let ordered = filtered + " ORDER BY created_at DESC"@;
    let sql = match limit {
        Some(n) => ordered + " LIMIT "@ + dec(n),
        None => ordered,
    };
    (sql, match uploader {
        Some(u) => seq![u],
        None => seq![],
    })
}

/// The listing query for a filter, as `spec_list_query` states it.
pub fn list_query(filter: &ListFilter) -> (r: (String, Vec<String>))
    ensures
        (r.0@, crate::text::views(r.1@)) == spec_list_query(
            crate::text::opt_view(filter.uploader),
            match filter.limit {
                Some(n) => Some(n as nat),
                None => None,
            },
        ),
{
    let mut sql: Vec<char> = Vec::new();
    push_str(
        &mut sql,
        "SELECT id, created_at, source_path, uploader, key, url, markdown, mime, size, width, height, status FROM uploads",
    );
    let mut bindings: Vec<String> = Vec::new();
    match &filter.uploader {
        Some(u) => {
            push_str(&mut sql, " WHERE uploader = ?");
            bindings.push(own(u.as_str()));
        },
        None => {},
    }
    push_str(&mut sql, " ORDER BY created_at DESC");
    match filter.limit {
        Some(n) => {
            push_str(&mut sql, " LIMIT ");
            let d = dec_chars(n as u64);
            push_chars(&mut sql, &d);
        },
        None => {},
    }
    proof {
        assert(crate::text::views(bindings@) =~= spec_list_query(
            crate::text::opt_view(filter.uploader),
            match filter.limit {
                Some(n) => Some(n as nat),
                None => None,
            },
        ).1);
    }
    (string_of(&sql), bindings)
}

/// An unsigned count as SQLite's signed integer (two's complement, as an
/// `as i64` cast reads it).
pub open spec fn as_signed(n: u64) -> i64 {
    if n <= 0x7fff_ffff_ffff_ffff {
        n as i64
    } else {
        (n - 0x1_0000_0000_0000_0000) as i64
    }
}

fn to_signed(n: u64) -> (r: i64)
    ensures
        r == as_signed(n),
{
    if n <= 0x7fff_ffff_ffff_ffff {
        n as i64
    } else {
        let m: u64 = n - 0x8000_0000_0000_0000;
        (m as i64) - 0x7fff_ffff_ffff_ffff - 1
    }
}

/// The row a successful upload adds.
pub fn entry_for(out: &UploadOutput, source_path: Option<&str>, id: String, created_at: String) -> (r: HistoryEntry)
    ensures
        r.id == id,
        r.created_at == created_at,
        crate::text::opt_view(r.source_path) == match source_path {
            Some(p) => Some(p@),
            None => None,
        },
        r.uploader == out.uploader,
        r.key == out.key,
        r.url == out.url,
        r.markdown == out.markdown,
        r.mime == Some(out.mime),
        r.size == Some(as_signed(out.size)),
        r.width == match out.width {
            Some(w) => Some(w as i64),
            None => None,
        },
        r.height == match out.height {
            Some(h) => Some(h as i64),
            None => None,
        },
        r.status@ == "ok"@,
{
    HistoryEntry {
        id,
        created_at,
        source_path: match source_path {
            Some(p) => Some(own(p)),
            None => None,
        },
        uploader: out.uploader.clone(),
        key: out.key.clone(),
        url: out.url.clone(),
        markdown: out.markdown.clone(),
        mime: Some(out.mime.clone()),
        size: Some(to_signed(out.size)),
        width: match out.width {
            Some(w) => Some(w as i64),
            None => None,
        },
        height: match out.height {
            Some(h) => Some(h as i64),
            None => None,
        },
        status: own("ok"),
    }
}

// ------------------------------------------------------------------
// Entry ids
// ------------------------------------------------------------------

/// Byte `i` of a clock reading (little-endian), with the version (4) and
/// variant (10) bits of a version-4 UUID set.
pub open spec fn uuid_byte(n: u128, i: int) -> u8 {
    let b = ((n >> ((8 * i) as u128)) & 0xff) as u8;
    if i == 6 {
        (b & 0x0f) | 0x40
    } else if i == 8 {
        (b & 0x3f) | 0x80
    } else {
        b
    }
}

/// The 16 bytes of the id.
pub open spec fn uuid_bytes(n: u128) -> Seq<u8> {
    Seq::new(16, |i: int| uuid_byte(n, i))
}

/// Hex of `bytes[from..to]`.
pub open spec fn hex_range(b: Seq<u8>, from: int, to: int) -> Seq<char> {
    hex_lower(b.subrange(from, to))
}

/// The id text: the bytes in hex grouped 4-2-2-2-6 with dashes.
pub open spec fn spec_uuid_text(n: u128) -> Seq<char> {
    let b = uuid_bytes(n);
    hex_range(b, 0, 4) + "-"@ + hex_range(b, 4, 6) + "-"@ + hex_range(b, 6, 8) + "-"@ + hex_range(b, 8, 10)
        + "-"@ + hex_range(b, 10, 16)
}

proof fn lemma_hex_len(b: Seq<u8>)
    ensures
        hex_lower(b).len() == 2 * b.len(),
        forall|i: int| 0 <= i < hex_lower(b).len() ==> hex_lower(b)[i] != '-',
    decreases b.len(),
{
    if b.len() > 0 {
        lemma_hex_len(b.drop_last());
        reveal_with_fuel(hex_lower, 2);
        let t = b.drop_last();
        let last = b.last();
        assert(hex_lower(b) == hex_lower(t) + seq![hex_digit((last / 16) as nat), hex_digit((last % 16) as nat)]) by {
            assert(b.drop_last() == t);
        }
        assert forall|i: int| 0 <= i < hex_lower(b).len() implies hex_lower(b)[i] != '-' by {
            if i >= hex_lower(t).len() {
                let d = if i == hex_lower(t).len() { (last / 16) as nat } else { (last % 16) as nat };
                assert(hex_lower(b)[i] == hex_digit(d));
                assert(d < 16);
            }
        }
    }
}

/// The id text has 36 characters, with exactly 4 dashes, at 8, 13, 18 and
/// 23.
pub proof fn lemma_uuid_shape(n: u128)
    ensures
        spec_uuid_text(n).len() == 36,
        forall|i: int|
            0 <= i < 36 ==> ((spec_uuid_text(n)[i] == '-') <==> (i == 8 || i == 13 || i == 18 || i == 23)),
{
    let b = uuid_bytes(n);
    lemma_hex_len(b.subrange(0, 4));
    lemma_hex_len(b.subrange(4, 6));
    lemma_hex_len(b.subrange(6, 8));
    lemma_hex_len(b.subrange(8, 10));
    lemma_hex_len(b.subrange(10, 16));
    reveal_strlit("-");
}

fn push_hex_byte(out: &mut Vec<char>, b: u8)
    ensures
        final(out)@ == old(out)@ + hex_lower(seq![b]),
{
    let hi: u8 = b / 16;
    let lo: u8 = b % 16;
    let h = if hi < 10 { (hi + 48) as char } else { (hi + 87) as char };
    let l = if lo < 10 { (lo + 48) as char } else { (lo + 87) as char };
    out.push(h);
    out.push(l);
    proof {
        reveal_with_fuel(hex_lower, 2);
        assert(seq![b].drop_last() =~= Seq::<u8>::empty());
        assert(h == hex_digit(hi as nat));
        assert(l == hex_digit(lo as nat));
        assert(final(out)@ =~= old(out)@ + hex_lower(seq![b]));
    }
}

proof fn lemma_hex_push(b: Seq<u8>, x: u8)
    ensures
        hex_lower(b.push(x)) == hex_lower(b) + hex_lower(seq![x]),
{
    reveal_with_fuel(hex_lower, 2);
    assert(b.push(x).drop_last() =~= b);
    assert(seq![x].drop_last() =~= Seq::<u8>::empty());
    assert(hex_lower(b.push(x)) =~= hex_lower(b) + hex_lower(seq![x]));
}

/// The id text of a clock reading, as `spec_uuid_text` states it.
pub fn uuid_from_nanos(n: u128) -> (r: String)
    ensures
        r@ == spec_uuid_text(n),
        r@.len() == 36,
{
    let mut out: Vec<char> = Vec::new();
    let mut i: usize = 0;
    let ghost b = uuid_bytes(n);
    while i < 16
        invariant
            i <= 16,
            b == uuid_bytes(n),
            out@ == if i <= 4 {
                hex_range(b, 0, i as int)
            } else if i <= 6 {
                hex_range(b, 0, 4) + "-"@ + hex_range(b, 4, i as int)
            } else if i <= 8 {
                hex_range(b, 0, 4) + "-"@ + hex_range(b, 4, 6) + "-"@ + hex_range(b, 6, i as int)
            } else if i <= 10 {
                hex_range(b, 0, 4) + "-"@ + hex_range(b, 4, 6) + "-"@ + hex_range(b, 6, 8) + "-"@ + hex_range(b, 8, i as int)
            } else {
                hex_range(b, 0, 4) + "-"@ + hex_range(b, 4, 6) + "-"@ + hex_range(b, 6, 8) + "-"@ + hex_range(b, 8, 10) + "-"@
                    + hex_range(b, 10, i as int)
            },
        decreases 16 - i,
    {
        proof {
            reveal_strlit("-");
        }
        if i == 4 || i == 6 || i == 8 || i == 10 {
            out.push('-');
            proof {
                assert(b.subrange(i as int, i as int) =~= Seq::<u8>::empty());
                assert(hex_lower(Seq::<u8>::empty()) =~= Seq::<char>::empty());
            }
        }
        let shift: u128 = (8 * i) as u128;
        let raw: u8 = ((n >> shift) & 0xff) as u8;
        let byte: u8 = if i == 6 {
            (raw & 0x0f) | 0x40
        } else if i == 8 {
            (raw & 0x3f) | 0x80
        } else {
            raw
        };
        assert(byte == uuid_byte(n, i as int));
        let ghost before = out@;
        push_hex_byte(&mut out, byte);
        proof {
            let start: int = if i < 4 { 0 } else if i < 6 { 4 } else if i < 8 { 6 } else if i < 10 { 8 } else { 10 };
            assert(b.subrange(start, i + 1) =~= b.subrange(start, i as int).push(byte));
            lemma_hex_push(b.subrange(start, i as int), byte);
            assert(hex_range(b, start, i + 1) == hex_range(b, start, i as int) + hex_lower(seq![byte]));
            assert(out@ =~= (if i + 1 <= 4 {
                hex_range(b, 0, i + 1)
            } else if i + 1 <= 6 {
                hex_range(b, 0, 4) + "-"@ + hex_range(b, 4, i + 1)
            } else if i + 1 <= 8 {
                hex_range(b, 0, 4) + "-"@ + hex_range(b, 4, 6) + "-"@ + hex_range(b, 6, i + 1)
            } else if i + 1 <= 10 {
                hex_range(b, 0, 4) + "-"@ + hex_range(b, 4, 6) + "-"@ + hex_range(b, 6, 8) + "-"@ + hex_range(b, 8, i + 1)
            } else {
                hex_range(b, 0, 4) + "-"@ + hex_range(b, 4, 6) + "-"@ + hex_range(b, 6, 8) + "-"@ + hex_range(b, 8, 10) + "-"@
                    + hex_range(b, 10, i + 1)
            }));
        }
        i = i + 1;
    }
    proof {
        lemma_uuid_shape(n);
    }
    string_of(&out)
}

/// Nanoseconds since the Unix epoch.
///
/// Reads `std::time::SystemTime::now()` and its distance from `UNIX_EPOCH`
/// (zero for a clock set before the epoch). The clock can read anything, so
/// nothing is stated of it.
#[verifier::external_body]
fn unix_nanos() -> (r: u128) {
    std::time::SystemTime::now()
        .duration_since(std::time::UNIX_EPOCH)
        .map(|d| d.as_nanos())
        .unwrap_or(0)
}

/// A fresh entry id: the current clock reading shaped as a version-4 UUID.
pub fn uuid_v4() -> (r: String)
    ensures
        exists|n: u128| r@ == spec_uuid_text(n),
        r@.len() == 36,
{
    uuid_from_nanos(unix_nanos())
}

} // verus!
