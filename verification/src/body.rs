//! How an upload body is cut into chunks for progress reporting, and how
//! far along each chunk puts the transfer. Streaming the chunks happens
//! outside the library.

use vstd::prelude::*;

verus! {

/// The chunk size upload bodies are streamed in.
pub const DEFAULT_CHUNK_SIZE: usize = 65536;

/// The smaller of two numbers.
pub open spec fn min_int(a: int, b: int) -> int {
    if a <= b {
        a
    } else {
        b
    }
}

/// `offsets` cuts `0..total` into consecutive chunks of `size` bytes, the
/// last one possibly shorter: chunk `i` is `i * size .. min((i + 1) * size, total)`.
pub open spec fn chunked(offsets: Seq<(usize, usize)>, total: int, size: int) -> bool {
    &&& offsets.len() * size >= total
    &&& offsets.len() == 0 || (offsets.len() - 1) * size < total
    &&& forall|i: int|
        0 <= i < offsets.len() ==> #[trigger] offsets[i].0 == i * size && offsets[i].1 == min_int(
            (i + 1) * size,
            total,
        )
}

/// The chunks `0..total` is streamed in, `chunk_size` bytes each.
pub fn chunk_offsets(total: usize, chunk_size: usize) -> (r: Vec<(usize, usize)>)
    requires
        chunk_size > 0,
    ensures
        chunked(r@, total as int, chunk_size as int),
{
    let mut out: Vec<(usize, usize)> = Vec::new();
    let mut start: usize = 0;
    proof {
        assert(0 * chunk_size == 0) by (nonlinear_arith);
    }
    while start < total
        invariant
            chunk_size > 0,
            start == min_int(out@.len() * chunk_size, total as int),
            out@.len() == 0 || (out@.len() - 1) * chunk_size < total,
            forall|i: int|
                0 <= i < out@.len() ==> #[trigger] out@[i].0 == i * chunk_size && out@[i].1 == min_int(
                    (i + 1) * chunk_size,
                    total as int,
                ),
        decreases total - start,
    {
        let ghost k = out@.len();
        let end: usize = if total - start < chunk_size {
            total
        } else {
            start + chunk_size
        };
        proof {
            assert((k + 1) * chunk_size == k * chunk_size + chunk_size) by (nonlinear_arith);
        }
        out.push((start, end));
        start = end;
    }
    out
}

/// The chunks cover the whole body without gaps or overlaps: the first
/// starts at zero, each ends where the next starts, and the last ends at
/// the total.
pub proof fn law_chunks_cover(offsets: Seq<(usize, usize)>, total: int, size: int)
    requires
        size > 0,
        total > 0,
        chunked(offsets, total, size),
    ensures
        offsets.len() > 0,
        offsets[0].0 == 0,
        offsets.last().1 == total,
        forall|i: int| 0 <= i < offsets.len() - 1 ==> #[trigger] offsets[i].1 == offsets[i + 1].0,
{
    assert(offsets.len() > 0) by {
        if offsets.len() == 0 {
            assert(offsets.len() * size == 0) by (nonlinear_arith)
                requires
                    offsets.len() == 0,
            ;
        }
    }
    let n = offsets.len() as int;
    assert(offsets[0].0 == 0 * size);
    assert(0 * size == 0) by (nonlinear_arith);
    assert(offsets[n - 1].0 == (n - 1) * size);
    assert(offsets[n - 1].1 == min_int(n * size, total)) by {
        assert((n - 1 + 1) * size == n * size);
    }
    assert forall|i: int| 0 <= i < offsets.len() - 1 implies #[trigger] offsets[i].1 == offsets[i + 1].0 by {
        assert(offsets[i].0 == i * size);
        assert(offsets[i + 1].0 == (i + 1) * size);
        assert((i + 1) * size <= (n - 1) * size) by (nonlinear_arith)
            requires
                i + 1 <= n - 1,
                size > 0,
        ;
    }
}

/// How many bytes have been handed on once chunk `index` is sent: the end
/// of that chunk, capped at the total.
pub fn chunk_progress(index: usize, chunk_size: usize, total: u64) -> (r: u64)
    ensures
        r as int == min_int((index + 1) * chunk_size, total as int),
{
    let idx = index as u128 + 1;
    let size = chunk_size as u128;
    assert(idx * size <= 0x1_0000_0000_0000_0000 * 0xffff_ffff_ffff_ffff) by (nonlinear_arith)
        requires
            idx <= 0x1_0000_0000_0000_0000,
            size <= 0xffff_ffff_ffff_ffff,
    ;
    let sent: u128 = idx * size;
    if sent < total as u128 {
        sent as u64
    } else {
        total
    }
}

} // verus!
