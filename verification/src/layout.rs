//! Sizing and formatting primitives for a single control-message entry.
//!
//! The model fixes one conservative entry layout for the supported platform
//! families: an entry header is an 8-byte length field followed by a 4-byte
//! level tag and a 4-byte type tag, and entries are padded to an 8-byte
//! boundary.

use vstd::prelude::*;

verus! {

/// Alignment, in bytes, that a control-message entry header requires.
/// A conservative bound that suffices across the supported platforms.
pub const CMSG_ALIGN: usize = 8;

/// Size, in bytes, of an entry header (length field, level tag, type tag).
/// Already a multiple of [`CMSG_ALIGN`].
pub const CMSG_HDR_LEN: usize = 16;

/// `n` rounded up to the next multiple of [`CMSG_ALIGN`].
pub open spec fn align_up_spec(n: int) -> int {
    n + ((8 - n % 8) % 8)
}

pub proof fn lemma_align_up(n: int)
    requires
        0 <= n,
    ensures
        n <= align_up_spec(n) <= n + 7,
        align_up_spec(n) % 8 == 0,
{
    assert(align_up_spec(n) % 8 == 0) by {
        let r = n % 8;
        assert(0 <= r < 8);
        assert(n % 8 == r);
        if r == 0 {
            assert(align_up_spec(n) == n);
        } else {
            assert(align_up_spec(n) == n + (8 - r));
            assert((n + (8 - r)) % 8 == 0) by (nonlinear_arith)
                requires
                    r == n % 8,
                    0 < r < 8,
            ;
        }
    };
}

/// Exact value for an entry's length field when it carries an `n`-byte
/// payload: header plus payload, unpadded.
pub open spec fn cmsg_len_spec(n: int) -> int {
    16 + n
}

/// Total buffer footprint of an entry carrying an `n`-byte payload once the
/// padding up to the next entry is included; always at least [`cmsg_len_spec`].
pub open spec fn cmsg_space_spec(n: int) -> int {
    16 + align_up_spec(n)
}

/// `n` rounded up to the next multiple of [`CMSG_ALIGN`].
pub fn align_up(n: usize) -> (r: usize)
    requires
        n <= usize::MAX - 7,
    ensures
        r as int == align_up_spec(n as int),
        n <= r,
        r % 8 == 0,
{
    proof {
        lemma_align_up(n as int);
    }
    let rem = n % 8;
    if rem == 0 {
        n
    } else {
        n + (8 - rem)
    }
}

/// Exact byte length to declare in an entry's length field to hold an
/// `n`-byte payload.
pub fn cmsg_len(n: usize) -> (r: usize)
    requires
        n <= usize::MAX - 16,
    ensures
        r as int == cmsg_len_spec(n as int),
{
    CMSG_HDR_LEN + n
}

/// Total byte footprint an entry with an `n`-byte payload occupies in the
/// buffer, alignment padding included.
pub fn cmsg_space(n: usize) -> (r: usize)
    requires
        n <= usize::MAX - 23,
    ensures
        r as int == cmsg_space_spec(n as int),
{
    proof {
        lemma_align_up(n as int);
    }
    CMSG_HDR_LEN + align_up(n)
}

/// `buf` with the bytes starting at `off` replaced by `data`.
pub open spec fn splice(buf: Seq<u8>, off: int, data: Seq<u8>) -> Seq<u8>
    recommends
        0 <= off,
        off + data.len() <= buf.len(),
{
    buf.subrange(0, off).add(data).add(buf.subrange(off + data.len(), buf.len() as int))
}

pub proof fn lemma_splice_len(buf: Seq<u8>, off: int, data: Seq<u8>)
    requires
        0 <= off,
        off + data.len() <= buf.len(),
    ensures
        splice(buf, off, data).len() == buf.len(),
        forall|i: int| 0 <= i < off ==> splice(buf, off, data)[i] == buf[i],
        forall|i: int|
            off <= i < off + data.len() ==> splice(buf, off, data)[i] == data[i - off],
        forall|i: int|
            off + data.len() <= i < buf.len() ==> splice(buf, off, data)[i] == buf[i],
{
}

/// Overwrites `buf[off .. off + data.len())` with `data`, leaving every other
/// byte in place.
pub fn write_bytes(buf: &mut Vec<u8>, off: usize, data: &[u8])
    requires
        off + data@.len() <= old(buf)@.len(),
    ensures
        final(buf)@ == splice(old(buf)@, off as int, data@),
{
    proof {
        lemma_splice_len(old(buf)@, off as int, data@);
    }
    let n = data.len();
    let cap = buf.len();
    let mut i: usize = 0;
    while i < n
        invariant
            n == data@.len(),
            off + n <= cap,
            cap == buf@.len(),
            buf@.len() == old(buf)@.len(),
            forall|j: int| 0 <= j < i ==> buf@[off + j] == data@[j],
            forall|j: int| 0 <= j < off ==> buf@[j] == old(buf)@[j],
            forall|j: int| off + n <= j < buf@.len() ==> buf@[j] == old(buf)@[j],
            forall|j: int| off + i <= j < off + n ==> buf@[j] == old(buf)@[j],
            i <= n,
        decreases n - i,
    {
        let b = *vstd::slice::slice_index_get(data, i);
        buf[off + i] = b;
        i = i + 1;
    }
    proof {
        assert(buf@ =~= splice(old(buf)@, off as int, data@));
    }
}

} // verus!
