//! The message-header implementations, one per platform family.
//!
//! [`SysMsgHdr`] models the standard header layout: committing a zero
//! control length also nulls the control pointer, which one platform is
//! particular about.  [`SysMsgHdrX`] models the alternate header layout a
//! platform family offers for its higher-throughput path; its next-entry
//! lookup applies the defensive policy for that family's known defect, where
//! the lookup can hand back a truncated continuation entry instead of
//! signalling end-of-chain.  Both navigate the same control-buffer shape, so
//! they share the lookup helpers below.

use vstd::prelude::*;

use crate::hdr::{entry_at, hdr_bytes, next_off, CMsg, MsgHdr};
use crate::layout::{align_up, splice, write_bytes, CMSG_HDR_LEN};

verus! {

/// Reads the declared length field of the entry at `off`.
fn read_u64_at(ctrl: &Vec<u8>, off: usize) -> (r: u64)
    requires
        off + 8 <= ctrl@.len(),
    ensures
        r == vstd::bytes::spec_u64_from_le_bytes(ctrl@.subrange(off as int, off + 8)),
{
    let n = ctrl.len();
    assert(off + 8 <= n);
    vstd::bytes::u64_from_le_bytes(vstd::slice::slice_subrange(ctrl.as_slice(), off, off + 8))
}

/// Reads a four-byte tag field at `off`.
fn read_u32_at(ctrl: &Vec<u8>, off: usize) -> (r: u32)
    requires
        off + 4 <= ctrl@.len(),
    ensures
        r == vstd::bytes::spec_u32_from_le_bytes(ctrl@.subrange(off as int, off + 4)),
{
    let n = ctrl.len();
    assert(off + 4 <= n);
    vstd::bytes::u32_from_le_bytes(vstd::slice::slice_subrange(ctrl.as_slice(), off, off + 4))
}

/// The first-entry lookup, shared by both header layouts: the region must
/// hold at least one entry header.
fn first_hdr_impl(controllen: usize) -> (r: Option<usize>)
    ensures
        if controllen >= 16 {
            r == Some(0usize)
        } else {
            r is None
        },
{
    if controllen >= CMSG_HDR_LEN {
        Some(0)
    } else {
        None
    }
}

/// The next-entry lookup, shared by both header layouts; `guarded` selects
/// the defensive truncated-entry policy.
fn nxt_hdr_impl(ctrl: &Vec<u8>, controllen: usize, cur: usize, guarded: bool) -> (r: Option<
    usize,
>)
    requires
        cur + 16 <= controllen,
        controllen <= ctrl@.len(),
    ensures
        crate::hdr::off_matches(r, next_off(ctrl@, controllen as int, cur as int, guarded)),
{
    let l = read_u64_at(ctrl, cur);
    if l < 16 {
        return None;
    }
    let rem = controllen - cur;
    proof {
        crate::layout::lemma_align_up(l as int);
    }
    if l > (rem - 16) as u64 {
        return None;
    }
    let lu = l as usize;
    let padded = align_up(lu);
    if padded > rem - 16 {
        return None;
    }
    let nxt = cur + padded;
    if guarded {
        let nl = read_u64_at(ctrl, nxt);
        if nl < 16 {
            return None;
        }
    }
    Some(nxt)
}

/// Copies the entry at `off` out of the declared region, clamping the
/// payload to the region's end.
fn read_cmsg_impl(ctrl: &Vec<u8>, controllen: usize, off: usize) -> (r: CMsg)
    requires
        off + 16 <= controllen,
        controllen <= ctrl@.len(),
    ensures
        r@ == entry_at(ctrl@, controllen as int, off as int),
{
    let l = read_u64_at(ctrl, off);
    let level = read_u32_at(ctrl, off + 8) as i32;
    let ty = read_u32_at(ctrl, off + 12) as i32;
    let avail = controllen - off - 16;
    let plen: usize = if l <= 16 {
        0
    } else {
        let want = l - 16;
        if want > avail as u64 {
            avail
        } else {
            want as usize
        }
    };
    let data = vstd::slice::slice_to_vec(
        vstd::slice::slice_subrange(ctrl.as_slice(), off + 16, off + 16 + plen),
    );
    let r = CMsg { cmsg_len: l, cmsg_level: level, cmsg_type: ty, data };
    proof {
        let e = entry_at(ctrl@, controllen as int, off as int);
        assert(r@.data =~= e.data);
    }
    r
}

/// Writes the three header fields of the entry at `off`.
fn set_impl(ctrl: &mut Vec<u8>, off: usize, level: i32, ty: i32, len: usize)
    requires
        off + 16 <= old(ctrl)@.len(),
    ensures
        final(ctrl)@ == splice(old(ctrl)@, off as int, hdr_bytes(len as u64, level, ty)),
        final(ctrl)@.len() == old(ctrl)@.len(),
{
    let n = ctrl.len();
    assert(off + 16 <= n);
    let lb = vstd::bytes::u64_to_le_bytes(len as u64);
    let vb = vstd::bytes::u32_to_le_bytes(level as u32);
    let tb = vstd::bytes::u32_to_le_bytes(ty as u32);
    write_bytes(ctrl, off, lb.as_slice());
    write_bytes(ctrl, off + 8, vb.as_slice());
    write_bytes(ctrl, off + 12, tb.as_slice());
    proof {
        let b0 = old(ctrl)@;
        let h = hdr_bytes(len as u64, level, ty);
        vstd::bytes::lemma_auto_spec_u64_to_from_le_bytes();
        vstd::bytes::lemma_auto_spec_u32_to_from_le_bytes();
        let s1 = splice(b0, off as int, lb@);
        let s2 = splice(s1, off + 8, vb@);
        let s3 = splice(s2, off + 12, tb@);
        crate::layout::lemma_splice_len(b0, off as int, lb@);
        crate::layout::lemma_splice_len(s1, off + 8, vb@);
        crate::layout::lemma_splice_len(s2, off + 12, tb@);
        crate::layout::lemma_splice_len(b0, off as int, h);
        assert(ctrl@ =~= splice(b0, off as int, h));
    }
}

/// The standard message-header layout.
pub struct SysMsgHdr {
    control: Vec<u8>,
    controllen: usize,
    control_null: bool,
}

impl SysMsgHdr {
    /// A header over a caller-supplied control buffer, with `controllen`
    /// bytes of it declared usable.
    pub fn new(control: Vec<u8>, controllen: usize) -> (r: Self)
        requires
            controllen <= control@.len(),
        ensures
            crate::hdr::hdr_wf(&r),
            r.ctrl() == control@,
            r.clen() == controllen,
            !r.ctrl_null(),
    {
        SysMsgHdr { control, controllen, control_null: false }
    }

    /// Whether the control-buffer pointer has been nulled.
    pub fn control_is_null(&self) -> (r: bool)
        ensures
            r == self.ctrl_null(),
    {
        self.control_null
    }

    /// The control buffer's bytes.
    pub fn control(&self) -> (r: &Vec<u8>)
        ensures
            r@ == self.ctrl(),
    {
        &self.control
    }
}

impl MsgHdr for SysMsgHdr {
    closed spec fn ctrl(&self) -> Seq<u8> {
        self.control@
    }

    closed spec fn clen(&self) -> usize {
        self.controllen
    }

    closed spec fn ctrl_null(&self) -> bool {
        self.control_null
    }

    open spec fn nulls_on_zero() -> bool {
        true
    }

    open spec fn guards_truncated() -> bool {
        false
    }

    fn cmsg_first_hdr(&self) -> (r: Option<usize>) {
        first_hdr_impl(self.controllen)
    }

    fn cmsg_nxt_hdr(&self, cur: usize) -> (r: Option<usize>) {
        nxt_hdr_impl(&self.control, self.controllen, cur, false)
    }

    fn set_control_len(&mut self, len: usize) {
        self.controllen = len;
        if len == 0 {
            // One platform is particular about the control pointer being
            // null when there are no control messages.
            self.control = Vec::new();
            self.control_null = true;
        }
    }

    fn control_len(&self) -> (r: usize) {
        self.controllen
    }

    fn cmsg_set(&mut self, off: usize, level: i32, ty: i32, len: usize) {
        set_impl(&mut self.control, off, level, ty, len);
    }

    fn cmsg_write_data(&mut self, off: usize, data: &[u8]) {
        write_bytes(&mut self.control, off, data);
    }

    fn cmsg_read(&self, off: usize) -> (r: CMsg) {
        read_cmsg_impl(&self.control, self.controllen, off)
    }
}

/// The alternate message-header layout of the platform family with the
/// higher-throughput path.  It presents the same capability by navigating
/// the standard control-buffer shape, with the defensive truncated-entry
/// policy applied by its next-entry lookup.
pub struct SysMsgHdrX {
    control: Vec<u8>,
    controllen: usize,
}

impl SysMsgHdrX {
    /// A header over a caller-supplied control buffer, with `controllen`
    /// bytes of it declared usable.
    pub fn new(control: Vec<u8>, controllen: usize) -> (r: Self)
        requires
            controllen <= control@.len(),
        ensures
            crate::hdr::hdr_wf(&r),
            r.ctrl() == control@,
            r.clen() == controllen,
            !r.ctrl_null(),
    {
        SysMsgHdrX { control, controllen }
    }

    /// The control buffer's bytes.
    pub fn control(&self) -> (r: &Vec<u8>)
        ensures
            r@ == self.ctrl(),
    {
        &self.control
    }
}

impl MsgHdr for SysMsgHdrX {
    closed spec fn ctrl(&self) -> Seq<u8> {
        self.control@
    }

    closed spec fn clen(&self) -> usize {
        self.controllen
    }

    closed spec fn ctrl_null(&self) -> bool {
        false
    }

    open spec fn nulls_on_zero() -> bool {
        false
    }

    open spec fn guards_truncated() -> bool {
        true
    }

    fn cmsg_first_hdr(&self) -> (r: Option<usize>) {
        first_hdr_impl(self.controllen)
    }

    fn cmsg_nxt_hdr(&self, cur: usize) -> (r: Option<usize>) {
        nxt_hdr_impl(&self.control, self.controllen, cur, true)
    }

    fn set_control_len(&mut self, len: usize) {
        self.controllen = len;
    }

    fn control_len(&self) -> (r: usize) {
        self.controllen
    }

    fn cmsg_set(&mut self, off: usize, level: i32, ty: i32, len: usize) {
        set_impl(&mut self.control, off, level, ty, len);
    }

    fn cmsg_write_data(&mut self, off: usize, data: &[u8]) {
        write_bytes(&mut self.control, off, data);
    }

    fn cmsg_read(&self, off: usize) -> (r: CMsg) {
        read_cmsg_impl(&self.control, self.controllen, off)
    }
}

} // verus!
