//! Encoding a series of control messages into a header's control buffer.
//!
//! The encoder takes the message header over, appends one typed entry per
//! `push`, and hands the header back through `finish`, which commits the
//! accumulated byte count into the header's control-length field exactly
//! once.  Because the header is owned for the encoder's whole lifetime, no
//! caller can pass it to a system call before the commit has happened —
//! ownership plays the role of the guaranteed finalisation on scope exit.

use vstd::prelude::*;

use crate::hdr::{chain_from, chain_of, entry_at, field_len, hdr_bytes, hdr_wf, next_off,
    tight_chain, CMsgView, MsgHdr};
use crate::layout::{align_up_spec, cmsg_len_spec, cmsg_space_spec, splice};

verus! {

/// The padded footprint one entry occupies in the buffer.
pub open spec fn space_of(v: CMsgView) -> int {
    cmsg_space_spec(v.data.len() as int)
}

/// The total padded footprint of a sequence of entries.
pub open spec fn sum_space(es: Seq<CMsgView>) -> int
    decreases es.len(),
{
    if es.len() == 0 {
        0
    } else {
        sum_space(es.drop_last()) + space_of(es.last())
    }
}

/// Writes a sequence of typed control messages into the control buffer of a
/// message header, advancing through the entry chain, and commits the final
/// total length exactly once, when [`Encoder::finish`] releases the header.
pub struct Encoder<M: MsgHdr> {
    hdr: M,
    cmsg: Option<usize>,
    len: usize,
    entries: Ghost<Seq<CMsgView>>,
}

impl<M: MsgHdr> Encoder<M> {
    /// The entries appended so far.
    pub closed spec fn entries(&self) -> Seq<CMsgView> {
        self.entries@
    }

    /// The bytes written so far.
    pub closed spec fn written(&self) -> usize {
        self.len
    }

    /// The declared buffer capacity the encoder may fill.
    pub closed spec fn cap(&self) -> usize {
        self.hdr.clen()
    }

    /// Whether a writable entry slot is at hand.
    pub closed spec fn has_slot(&self) -> bool {
        self.cmsg is Some
    }

    /// The encoder's invariant: the bytes written so far parse back as
    /// exactly the entries appended so far, they tile the written region,
    /// and the cursor stands at the write position.
    pub closed spec fn wf(&self) -> bool {
        &&& hdr_wf(&self.hdr)
        &&& self.len <= self.hdr.clen()
        &&& self.len % 8 == 0
        &&& match self.cmsg {
            Some(o) => o == self.len && o + 16 <= self.hdr.clen(),
            None => M::guards_truncated() || self.len + 16 > self.hdr.clen(),
        }
        &&& tight_chain(self.hdr.ctrl(), self.len as int, 0)
        &&& chain_from(self.hdr.ctrl(), self.len as int, 0, M::guards_truncated())
            == self.entries@
        &&& sum_space(self.entries@) == self.len as int
    }

    /// Takes the header over and positions the cursor on the first entry
    /// slot.  The header's whole declared control region may be overwritten
    /// while the encoder lives.
    pub fn new(hdr: M) -> (r: Self)
        requires
            hdr_wf(&hdr),
        ensures
            r.wf(),
            r.entries() == Seq::<CMsgView>::empty(),
            r.written() == 0,
            r.cap() == hdr.clen(),
            r.has_slot() <==> hdr.clen() >= 16,
    {
        let cmsg = hdr.cmsg_first_hdr();
        let r = Encoder { hdr, cmsg, len: 0, entries: Ghost(Seq::empty()) };
        proof {
            assert(tight_chain(r.hdr.ctrl(), 0, 0));
            assert(chain_from(r.hdr.ctrl(), 0, 0, M::guards_truncated())
                =~= Seq::<CMsgView>::empty());
        }
        r
    }

    /// Appends one control message carrying `value` as its payload.
    ///
    /// The caller promises the payload's alignment requirement does not
    /// exceed the entry alignment and that the declared buffer space still
    /// holds the entry's padded footprint — the two conditions the native
    /// encoder fails hard on.  Under them, on the unguarded family an entry
    /// slot is always at hand and the message is appended; on the guarded
    /// family a stale truncation verdict can have cleared the cursor, in
    /// which case the append is skipped and the encoder is left unchanged.
    #[verifier::spinoff_prover]
    #[verifier::rlimit(100)]
    pub fn push(&mut self, level: i32, ty: i32, value: &[u8], value_align: usize)
        requires
            old(self).wf(),
            value_align == 1 || value_align == 2 || value_align == 4 || value_align == 8,
            old(self).written() + cmsg_space_spec(value@.len() as int) <= old(self).cap(),
        ensures
            final(self).wf(),
            final(self).cap() == old(self).cap(),
            // every payload lands on an address aligned for its type
            (old(self).written() + 16) % (value_align as int) == 0,
            !M::guards_truncated() ==> old(self).has_slot(),
            old(self).has_slot() ==> {
                &&& final(self).entries() == old(self).entries().push(CMsgView {
                    level,
                    ty,
                    len: cmsg_len_spec(value@.len() as int),
                    data: value@,
                })
                &&& final(self).written() == old(self).written() + cmsg_space_spec(
                    value@.len() as int,
                )
            },
            !old(self).has_slot() ==> final(self).entries() == old(self).entries()
                && final(self).written() == old(self).written(),
            !M::guards_truncated() ==> (final(self).has_slot() <==> final(self).written() + 16
                <= final(self).cap()),
    {
        proof {
            crate::layout::lemma_align_up(value@.len() as int);
            crate::hdr::lemma_payload_align(old(self).written() as int, value_align as int);
        }
        let n = value.len();
        let space = crate::layout::cmsg_space(n);
        let dl = crate::layout::cmsg_len(n);
        proof {
            crate::hdr::lemma_align_plus_hdr(n as int);
        }
        // The native encoder asserts here that the declared buffer space
        // suffices; that check holds by precondition.
        match self.cmsg {
            None => {
                // No entry slot although the space check passed.  Provably
                // unreachable on the unguarded family; on the guarded one
                // the append is dropped without touching the buffer.
                proof {
                    if !M::guards_truncated() {
                        assert(false);
                    }
                }
            },
            Some(off) => {
                let ghost b0 = self.hdr.ctrl();
                let ghost g = M::guards_truncated();
                let ghost cap = self.hdr.clen() as int;
                self.hdr.cmsg_set(off, level, ty, dl);
                let ghost b1 = self.hdr.ctrl();
                self.hdr.cmsg_write_data(off + 16, value);
                let ghost b2 = self.hdr.ctrl();
                let nxt = self.hdr.cmsg_nxt_hdr(off);
                let ghost v = CMsgView {
                    level,
                    ty,
                    len: cmsg_len_spec(value@.len() as int),
                    data: value@,
                };
                proof {
                    let offi = off as int;
                    let h = hdr_bytes(dl as u64, level, ty);
                    vstd::bytes::lemma_auto_spec_u64_to_from_le_bytes();
                    vstd::bytes::lemma_auto_spec_u32_to_from_le_bytes();
                    crate::layout::lemma_splice_len(b0, offi, h);
                    crate::layout::lemma_splice_len(b1, offi + 16, value@);
                    // the header fields of the new entry read back as written
                    assert(b2.subrange(offi, offi + 8) =~= vstd::bytes::spec_u64_to_le_bytes(
                        dl as u64));
                    assert(b2.subrange(offi + 8, offi + 12)
                        =~= vstd::bytes::spec_u32_to_le_bytes(level as u32));
                    assert(b2.subrange(offi + 12, offi + 16)
                        =~= vstd::bytes::spec_u32_to_le_bytes(ty as u32));
                    assert(field_len(b2, offi) == dl as int);
                    crate::hdr::lemma_tag_roundtrip(level);
                    crate::hdr::lemma_tag_roundtrip(ty);
                    // the new entry parses back as the pushed message
                    let e = entry_at(b2, offi + space, offi);
                    if n > 0 {
                        assert(b2.subrange(offi + 16, offi + 16 + n) =~= value@);
                    }
                    assert(e.data =~= v.data);
                    assert(e == v);
                    // everything below the written region is untouched
                    assert(forall|i: int| 0 <= i < offi ==> b2[i] == b0[i]);
                    crate::hdr::lemma_chain_snoc(b0, b2, offi, space as int, 0, g);
                    assert(entry_at(b2, offi + space, offi) == v);
                    self.entries@ = self.entries@.push(v);
                    assert(self.entries@.drop_last() =~= old(self).entries());
                    // the region still tiles and sums correctly
                    crate::hdr::lemma_mod8_add(offi, space as int);
                }
                self.len = self.len + space;
                self.cmsg = nxt;
                proof {
                    let g = M::guards_truncated();
                    let offi = off as int;
                    match nxt {
                        Some(o) => {
                            assert(next_off(b2, cap, offi, g) == Some(o as int));
                            assert(o as int == offi + align_up_spec(field_len(b2, offi)));
                            assert(o == self.len);
                        },
                        None => {},
                    }
                }
            },
        }
    }

    /// Appends one control message if the conditions [`Self::push`] requires
    /// hold of the running state, and reports whether it did; when it
    /// reports failure, nothing was written.
    pub fn try_push(&mut self, level: i32, ty: i32, value: &[u8], value_align: usize) -> (r:
        bool)
        requires
            old(self).wf(),
        ensures
            final(self).wf(),
            final(self).cap() == old(self).cap(),
            r == ((value_align == 1 || value_align == 2 || value_align == 4 || value_align == 8)
                && old(self).written() + cmsg_space_spec(value@.len() as int) <= old(self).cap()
                && old(self).has_slot()),
            r ==> final(self).entries() == old(self).entries().push(CMsgView {
                level,
                ty,
                len: cmsg_len_spec(value@.len() as int),
                data: value@,
            }) && final(self).written() == old(self).written() + cmsg_space_spec(
                value@.len() as int),
            !r ==> final(self).entries() == old(self).entries() && final(self).written()
                == old(self).written(),
    {
        if !(value_align == 1 || value_align == 2 || value_align == 4 || value_align == 8) {
            return false;
        }
        let n = value.len();
        let capacity = self.hdr.control_len();
        let remaining = capacity - self.len;
        if remaining < 16 {
            proof {
                crate::layout::lemma_align_up(n as int);
            }
            return false;
        }
        if n > remaining - 16 {
            proof {
                crate::layout::lemma_align_up(n as int);
            }
            return false;
        }
        let padded = crate::layout::align_up(n);
        if padded > remaining - 16 {
            return false;
        }
        if self.cmsg.is_none() {
            return false;
        }
        self.push(level, ty, value, value_align);
        true
    }

    /// Commits the accumulated total into the header's control-length field
    /// and releases the header: its declared length now equals the padded
    /// footprint of exactly the entries pushed, and parsing it back yields
    /// them in order.  Until this returns, no caller can reach the header,
    /// so the committed length can never be stale.
    pub fn finish(self) -> (r: M)
        requires
            self.wf(),
        ensures
            hdr_wf(&r),
            r.clen() == self.written(),
            r.clen() as int == sum_space(self.entries()),
            r.clen() <= self.cap(),
            chain_of(&r) == self.entries(),
            self.written() == 0 && M::nulls_on_zero() ==> r.ctrl_null(),
    {
        let ghost pre = self;
        let Encoder { mut hdr, cmsg: _, len, entries: _ } = self;
        hdr.set_control_len(len);
        proof {
            if len > 0 {
                assert(chain_of(&hdr) == pre.entries@);
            } else {
                assert(chain_from(pre.hdr.ctrl(), 0, 0, M::guards_truncated())
                    =~= Seq::<CMsgView>::empty());
                assert(chain_of(&hdr) =~= Seq::<CMsgView>::empty());
            }
        }
        hdr
    }
}

} // verus!
