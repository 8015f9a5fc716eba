//! The native message-header capability and the model of its control buffer.
//!
//! A message header owns a flat byte buffer holding a chain of
//! control-message entries.  The chain is navigable only through "first
//! entry" and "next entry" lookups; this module states what those lookups
//! return in terms of the raw bytes, and defines the abstract chain that a
//! buffer denotes.

use vstd::prelude::*;

use crate::layout::{align_up_spec, splice};
use vstd::bytes::{spec_u32_from_le_bytes, spec_u32_to_le_bytes, spec_u64_from_le_bytes,
    spec_u64_to_le_bytes};

verus! {

/// The abstract content of one control-message entry: its level and type
/// tags, its declared length field, and its payload bytes as far as they lie
/// inside the declared control region.
pub ghost struct CMsgView {
    pub level: i32,
    pub ty: i32,
    pub len: int,
    pub data: Seq<u8>,
}

/// One control-message entry, copied out of the buffer: the three header
/// fields and the payload bytes.
pub struct CMsg {
    pub cmsg_len: u64,
    pub cmsg_level: i32,
    pub cmsg_type: i32,
    pub data: Vec<u8>,
}

impl View for CMsg {
    type V = CMsgView;

    open spec fn view(&self) -> CMsgView {
        CMsgView {
            level: self.cmsg_level,
            ty: self.cmsg_type,
            len: self.cmsg_len as int,
            data: self.data@,
        }
    }
}

impl CMsg {
    /// The entry's declared length field.
    pub fn len(&self) -> (r: u64)
        ensures
            r as int == self@.len,
    {
        self.cmsg_len
    }

    /// The entry's payload bytes.
    pub fn cmsg_data(&self) -> (r: &Vec<u8>)
        ensures
            r@ == self@.data,
    {
        &self.data
    }
}

/// The declared length field of the entry starting at `off`.
pub open spec fn field_len(buf: Seq<u8>, off: int) -> int {
    spec_u64_from_le_bytes(buf.subrange(off, off + 8)) as int
}

/// The level tag of the entry starting at `off`.
pub open spec fn field_level(buf: Seq<u8>, off: int) -> i32 {
    spec_u32_from_le_bytes(buf.subrange(off + 8, off + 12)) as i32
}

/// The type tag of the entry starting at `off`.
pub open spec fn field_ty(buf: Seq<u8>, off: int) -> i32 {
    spec_u32_from_le_bytes(buf.subrange(off + 12, off + 16)) as i32
}

/// The byte encoding of an entry header: length field, level tag, type tag.
pub open spec fn hdr_bytes(len: u64, level: i32, ty: i32) -> Seq<u8> {
    spec_u64_to_le_bytes(len).add(spec_u32_to_le_bytes(level as u32)).add(
        spec_u32_to_le_bytes(ty as u32),
    )
}

/// The entry starting at `off` in a buffer whose declared control region is
/// `buf[0 .. clen)`.  The payload is clamped to the declared region.
pub open spec fn entry_at(buf: Seq<u8>, clen: int, off: int) -> CMsgView {
    let l = field_len(buf, off);
    let end = if off + l <= clen {
        off + l
    } else {
        clen
    };
    CMsgView {
        level: field_level(buf, off),
        ty: field_ty(buf, off),
        len: l,
        data: if end <= off + 16 {
            Seq::<u8>::empty()
        } else {
            buf.subrange(off + 16, end)
        },
    }
}

/// Where the next-entry lookup lands when started on the entry at `cur`.
///
/// The lookup signals end-of-chain when the current entry's declared length
/// is smaller than an entry header, or when no complete header fits between
/// the advanced position and the end of the declared region.  When `guarded`
/// holds, the lookup additionally applies the defensive policy for a known
/// platform defect: a continuation entry announcing a length smaller than a
/// minimal entry header is treated as end-of-chain rather than handed out.
pub open spec fn next_off(buf: Seq<u8>, clen: int, cur: int, guarded: bool) -> Option<int> {
    let l = field_len(buf, cur);
    if l < 16 {
        None
    } else if align_up_spec(l) > clen - cur - 16 {
        None
    } else if guarded && field_len(buf, cur + align_up_spec(l)) < 16 {
        None
    } else {
        Some(cur + align_up_spec(l))
    }
}

/// The sequence of entries that the chain starting at `cur` denotes.
pub open spec fn chain_from(buf: Seq<u8>, clen: int, cur: int, guarded: bool) -> Seq<CMsgView>
    decreases clen - cur,
{
    if !(0 <= cur && cur + 16 <= clen && clen <= buf.len()) {
        Seq::<CMsgView>::empty()
    } else {
        let e = entry_at(buf, clen, cur);
        match next_off(buf, clen, cur, guarded) {
            Some(n) => seq![e].add(chain_from(buf, clen, n, guarded)),
            None => seq![e],
        }
    }
}

/// The entries between `cur` and `clen` tile that region exactly: each entry
/// announces at least a header's worth of bytes, lies entirely inside the
/// region, and the padded entries end exactly at `clen`.
pub open spec fn tight_chain(buf: Seq<u8>, clen: int, cur: int) -> bool
    decreases clen - cur,
{
    if cur == clen {
        true
    } else if 0 <= cur && cur + 16 <= clen {
        let l = field_len(buf, cur);
        if 16 <= l && cur + l <= clen && cur + align_up_spec(l) <= clen {
            tight_chain(buf, clen, cur + align_up_spec(l))
        } else {
            false
        }
    } else {
        false
    }
}

/// A message header is well formed when its declared control length lies
/// within its buffer, and a null control pointer comes with an empty buffer
/// and a zero declared length.
pub open spec fn wf_parts(ctrl: Seq<u8>, clen: usize, ctrl_null: bool) -> bool {
    &&& clen <= ctrl.len()
    &&& (ctrl_null ==> clen == 0 && ctrl.len() == 0)
}

/// The full entry chain a message header presents.
pub open spec fn chain_of<M: MsgHdr>(h: &M) -> Seq<CMsgView> {
    chain_from(h.ctrl(), h.clen() as int, 0, M::guards_truncated())
}

/// Relates an executable offset to the abstract one.
pub open spec fn off_matches(r: Option<usize>, s: Option<int>) -> bool {
    match r {
        Some(a) => s == Some(a as int),
        None => s is None,
    }
}

/// How a platform family's message header and control-message chain are
/// navigated and sized.  One implementation per family; the users — the
/// encoder and the decoding iterator — are written once against this
/// contract.
pub trait MsgHdr: Sized {
    /// The bytes of the control buffer the header points at (empty when the
    /// pointer is null).
    spec fn ctrl(&self) -> Seq<u8>;

    /// The header's declared control-buffer length field.
    spec fn clen(&self) -> usize;

    /// Whether the control-buffer pointer is null.
    spec fn ctrl_null(&self) -> bool;

    /// Whether this family nulls the control-buffer pointer when a zero
    /// length is committed (a platform quirk, not universal).
    spec fn nulls_on_zero() -> bool;

    /// Whether this family's next-entry lookup applies the defensive
    /// truncated-entry policy.
    spec fn guards_truncated() -> bool;

    /// A pointer to the first entry slot, or none if the declared region
    /// cannot hold even one entry header.
    fn cmsg_first_hdr(&self) -> (r: Option<usize>)
        requires
            wf_parts(self.ctrl(), self.clen(), self.ctrl_null()),
        ensures
            if self.clen() >= 16 {
                r == Some(0usize)
            } else {
                r is None
            },
    ;

    /// The entry following `cur`, or none at end-of-chain; see [`next_off`].
    fn cmsg_nxt_hdr(&self, cur: usize) -> (r: Option<usize>)
        requires
            wf_parts(self.ctrl(), self.clen(), self.ctrl_null()),
            cur + 16 <= self.clen(),
        ensures
            off_matches(r, next_off(self.ctrl(), self.clen() as int, cur as int,
                Self::guards_truncated())),
    ;

    /// Destructively overwrites the declared control-buffer length; done only
    /// as a finalisation step.  On families with the nulling quirk a zero
    /// length also nulls the control-buffer pointer.
    fn set_control_len(&mut self, len: usize)
        requires
            wf_parts(old(self).ctrl(), old(self).clen(), old(self).ctrl_null()),
            len <= old(self).ctrl().len(),
        ensures
            wf_parts(final(self).ctrl(), final(self).clen(), final(self).ctrl_null()),
            final(self).clen() == len,
            len > 0 ==> final(self).ctrl() == old(self).ctrl() && final(self).ctrl_null()
                == old(self).ctrl_null(),
            len == 0 && !Self::nulls_on_zero() ==> final(self).ctrl() == old(self).ctrl()
                && final(self).ctrl_null() == old(self).ctrl_null(),
            len == 0 && Self::nulls_on_zero() ==> final(self).ctrl_null(),
    ;

    /// The declared control-buffer length.
    fn control_len(&self) -> (r: usize)
        ensures
            r == self.clen(),
    ;

    /// Writes the three header fields of the entry at `off`; must happen
    /// before any payload bytes are written there.
    fn cmsg_set(&mut self, off: usize, level: i32, ty: i32, len: usize)
        requires
            wf_parts(old(self).ctrl(), old(self).clen(), old(self).ctrl_null()),
            !old(self).ctrl_null(),
            off + 16 <= old(self).ctrl().len(),
        ensures
            wf_parts(final(self).ctrl(), final(self).clen(), final(self).ctrl_null()),
            final(self).ctrl() == splice(old(self).ctrl(), off as int,
                hdr_bytes(len as u64, level, ty)),
            final(self).ctrl().len() == old(self).ctrl().len(),
            final(self).clen() == old(self).clen(),
            final(self).ctrl_null() == old(self).ctrl_null(),
    ;

    /// Writes payload bytes at `off` in the control buffer.
    fn cmsg_write_data(&mut self, off: usize, data: &[u8])
        requires
            wf_parts(old(self).ctrl(), old(self).clen(), old(self).ctrl_null()),
            !old(self).ctrl_null(),
            off + data@.len() <= old(self).ctrl().len(),
        ensures
            wf_parts(final(self).ctrl(), final(self).clen(), final(self).ctrl_null()),
            final(self).ctrl() == splice(old(self).ctrl(), off as int, data@),
            final(self).ctrl().len() == old(self).ctrl().len(),
            final(self).clen() == old(self).clen(),
            final(self).ctrl_null() == old(self).ctrl_null(),
    ;

    /// Copies the entry at `off` out of the buffer.
    fn cmsg_read(&self, off: usize) -> (r: CMsg)
        requires
            wf_parts(self.ctrl(), self.clen(), self.ctrl_null()),
            off + 16 <= self.clen(),
        ensures
            r@ == entry_at(self.ctrl(), self.clen() as int, off as int),
    ;
}

/// A four-byte tag round-trips through its unsigned bit pattern.
pub proof fn lemma_tag_roundtrip(x: i32)
    ensures
        ((x as u32) as i32) == x,
{
    assert(((x as u32) as i32) == x) by (bit_vector);
}

/// Alignment distributes over adding a header: the padded footprint of a
/// whole entry is a header plus the padded payload.
pub proof fn lemma_align_plus_hdr(n: int)
    requires
        0 <= n,
    ensures
        align_up_spec(16 + n) == 16 + align_up_spec(n),
{
    vstd::arithmetic::div_mod::lemma_mod_multiples_vanish(2, n, 8);
    assert((8 * 2 + n) % 8 == n % 8);
}

/// A sum of multiples of the entry alignment stays a multiple of it.
pub proof fn lemma_mod8_add(x: int, y: int)
    requires
        x % 8 == 0,
        y % 8 == 0,
    ensures
        (x + y) % 8 == 0,
{
    vstd::arithmetic::div_mod::lemma_add_mod_noop(x, y, 8);
}

/// An offset that is a multiple of the entry alignment, advanced past one
/// entry header, is aligned for every supported payload alignment.
pub proof fn lemma_payload_align(l: int, a: int)
    requires
        l % 8 == 0,
        a == 1 || a == 2 || a == 4 || a == 8,
    ensures
        (l + 16) % a == 0,
{
    vstd::arithmetic::div_mod::lemma_fundamental_div_mod(l, 8);
    let k = l / 8;
    assert(l == 8 * k);
    if a == 1 {
        vstd::arithmetic::div_mod::lemma_mod_multiples_basic(8 * k + 16, 1);
        assert((8 * k + 16) * 1 == l + 16);
    } else if a == 2 {
        vstd::arithmetic::div_mod::lemma_mod_multiples_basic(4 * k + 8, 2);
        assert((4 * k + 8) * 2 == l + 16);
    } else if a == 4 {
        vstd::arithmetic::div_mod::lemma_mod_multiples_basic(2 * k + 4, 4);
        assert((2 * k + 4) * 4 == l + 16);
    } else {
        vstd::arithmetic::div_mod::lemma_mod_multiples_basic(k + 2, 8);
        assert((k + 2) * 8 == l + 16);
    }
}

/// Appending one entry that exactly follows a tight chain extends the chain
/// by that entry: the old bytes below `l0` are untouched, the new entry's
/// header stands at `l0`, and the declared region grows by the entry's
/// padded footprint.
pub proof fn lemma_chain_snoc(b1: Seq<u8>, b2: Seq<u8>, l0: int, space: int, cur: int, g: bool)
    requires
        0 <= cur <= l0,
        b1.len() == b2.len(),
        l0 + space <= b1.len(),
        forall|i: int| 0 <= i < l0 ==> b1[i] == b2[i],
        tight_chain(b1, l0, cur),
        16 <= field_len(b2, l0),
        space == align_up_spec(field_len(b2, l0)),
    ensures
        tight_chain(b2, l0 + space, cur),
        chain_from(b2, l0 + space, cur, g) == chain_from(b1, l0, cur, g).push(
            entry_at(b2, l0 + space, l0)),
    decreases l0 - cur,
{
    let dl = field_len(b2, l0);
    let clen2 = l0 + space;
    crate::layout::lemma_align_up(dl);
    let e_new = entry_at(b2, clen2, l0);
    if cur == l0 {
        // The old walk is empty; the new walk holds exactly the new entry.
        assert(chain_from(b1, l0, cur, g) =~= Seq::<CMsgView>::empty());
        assert(next_off(b2, clen2, l0, g) is None);
        assert(chain_from(b2, clen2, cur, g) =~= seq![e_new]);
        assert(chain_from(b1, l0, cur, g).push(e_new) =~= seq![e_new]);
        assert(tight_chain(b2, clen2, clen2));
    } else {
        let l = field_len(b1, cur);
        let nxt = cur + align_up_spec(l);
        assert(16 <= l && cur + l <= l0 && nxt <= l0 && tight_chain(b1, l0, nxt));
        crate::layout::lemma_align_up(l);
        assert(b1.subrange(cur, cur + 8) =~= b2.subrange(cur, cur + 8));
        assert(b1.subrange(cur + 8, cur + 12) =~= b2.subrange(cur + 8, cur + 12));
        assert(b1.subrange(cur + 12, cur + 16) =~= b2.subrange(cur + 12, cur + 16));
        assert(field_len(b2, cur) == l);
        if cur + l > cur + 16 {
            assert(b1.subrange(cur + 16, cur + l) =~= b2.subrange(cur + 16, cur + l));
        }
        let e_cur = entry_at(b1, l0, cur);
        assert(entry_at(b2, clen2, cur) == e_cur);
        lemma_chain_snoc(b1, b2, l0, space, nxt, g);
        if nxt == l0 {
            // The current entry was the last one; the old lookup stops here,
            // the new one now reaches the appended entry.
            assert(next_off(b1, l0, cur, g) is None);
            assert(next_off(b2, clen2, cur, g) == Some(nxt));
            assert(chain_from(b1, l0, cur, g) =~= seq![e_cur]);
            assert(chain_from(b2, clen2, cur, g) =~= seq![e_cur].add(
                chain_from(b2, clen2, nxt, g)));
            assert(chain_from(b2, clen2, cur, g) =~= chain_from(b1, l0, cur, g).push(e_new));
        } else {
            assert(nxt + 16 <= l0);
            assert(b1.subrange(nxt, nxt + 8) =~= b2.subrange(nxt, nxt + 8));
            assert(field_len(b2, nxt) == field_len(b1, nxt));
            assert(16 <= field_len(b1, nxt));
            assert(next_off(b1, l0, cur, g) == Some(nxt));
            assert(next_off(b2, clen2, cur, g) == Some(nxt));
            assert(chain_from(b2, clen2, cur, g) =~= seq![e_cur].add(
                chain_from(b2, clen2, nxt, g)));
            assert(chain_from(b1, l0, cur, g) =~= seq![e_cur].add(chain_from(b1, l0, nxt, g)));
            assert(chain_from(b2, clen2, cur, g) =~= chain_from(b1, l0, cur, g).push(e_new));
        }
        assert(tight_chain(b2, clen2, cur));
    }
}

/// [`wf_parts`] applied to a header's own view.
pub open spec fn hdr_wf<M: MsgHdr>(h: &M) -> bool {
    wf_parts(h.ctrl(), h.clen(), h.ctrl_null())
}

} // verus!
