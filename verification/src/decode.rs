//! Walking and decoding the control-message chain of a populated header.
//!
//! The iterator borrows the header immutably, yields one copied-out entry
//! per step, and advances through the platform's next-entry lookup with its
//! defensive end-of-chain handling; it terminates on every input and leaves
//! the header untouched.  A fresh iterator must be constructed to re-scan.

use vstd::prelude::*;

use crate::hdr::{chain_from, chain_of, hdr_wf, CMsg, CMsgView, MsgHdr};
use crate::layout::cmsg_len_spec;

verus! {

/// A cursor over the control-message entries of a borrowed message header.
pub struct Iter<'a, M: MsgHdr> {
    hdr: &'a M,
    cmsg: Option<usize>,
}

impl<'a, M: MsgHdr> Iter<'a, M> {
    /// The entries not yet yielded.
    pub closed spec fn remaining(&self) -> Seq<CMsgView> {
        match self.cmsg {
            Some(o) => chain_from(self.hdr.ctrl(), self.hdr.clen() as int, o as int,
                M::guards_truncated()),
            None => Seq::<CMsgView>::empty(),
        }
    }

    pub closed spec fn wf(&self) -> bool {
        &&& hdr_wf(self.hdr)
        &&& match self.cmsg {
            Some(o) => o + 16 <= self.hdr.clen(),
            None => true,
        }
    }

    /// Positions a fresh cursor on the header's first entry, if any.
    pub fn new(hdr: &'a M) -> (r: Self)
        requires
            hdr_wf(hdr),
        ensures
            r.wf(),
            r.remaining() == chain_of(hdr),
    {
        let r = Iter { hdr, cmsg: hdr.cmsg_first_hdr() };
        proof {
            if hdr.clen() < 16 {
                assert(chain_of(hdr) =~= Seq::<CMsgView>::empty());
            }
        }
        r
    }

    /// Yields the entry under the cursor and advances, or reports that the
    /// chain is exhausted.  Each step strictly shrinks what remains, so
    /// every walk is finite.
    pub fn next(&mut self) -> (r: Option<CMsg>)
        requires
            old(self).wf(),
        ensures
            final(self).wf(),
            match r {
                Some(c) => {
                    &&& old(self).remaining().len() > 0
                    &&& c@ == old(self).remaining()[0]
                    &&& final(self).remaining() == old(self).remaining().drop_first()
                },
                None => {
                    &&& old(self).remaining().len() == 0
                    &&& final(self).remaining().len() == 0
                },
            },
    {
        match self.cmsg {
            None => None,
            Some(off) => {
                let c = self.hdr.cmsg_read(off);
                let nxt = self.hdr.cmsg_nxt_hdr(off);
                self.cmsg = nxt;
                proof {
                    let g = M::guards_truncated();
                    let buf = self.hdr.ctrl();
                    let clen = self.hdr.clen() as int;
                    let rem = chain_from(buf, clen, off as int, g);
                    match nxt {
                        Some(o) => {
                            assert(rem == seq![rem[0]].add(chain_from(buf, clen, o as int, g)));
                            assert(rem.drop_first() =~= chain_from(buf, clen, o as int, g));
                            crate::layout::lemma_align_up(crate::hdr::field_len(buf,
                                off as int));
                        },
                        None => {
                            assert(rem =~= seq![rem[0]]);
                            assert(rem.drop_first() =~= Seq::<CMsgView>::empty());
                        },
                    }
                }
                Some(c)
            },
        }
    }
}

/// Walks a header's whole chain and hands the entries back in order.
pub fn collect_entries<M: MsgHdr>(hdr: &M) -> (v: Vec<CMsg>)
    requires
        hdr_wf(hdr),
    ensures
        v@.map_values(|c: CMsg| c@) == chain_of(hdr),
{
    let mut out: Vec<CMsg> = Vec::new();
    let mut it = Iter::new(hdr);
    proof {
        assert(out@.map_values(|c: CMsg| c@) =~= Seq::<CMsgView>::empty());
    }
    loop
        invariant
            it.wf(),
            out@.map_values(|c: CMsg| c@).add(it.remaining()) == chain_of(hdr),
        ensures
            out@.map_values(|c: CMsg| c@) == chain_of(hdr),
        decreases it.remaining().len(),
    {
        let ghost before = out@;
        let ghost rem = it.remaining();
        match it.next() {
            Some(c) => {
                out.push(c);
                proof {
                    assert(out@.map_values(|c: CMsg| c@) =~= before.map_values(
                        |c: CMsg| c@).push(rem[0]));
                    assert(out@.map_values(|c: CMsg| c@).add(it.remaining()) =~= chain_of(
                        hdr));
                }
            },
            None => {
                proof {
                    assert(it.remaining() =~= Seq::<CMsgView>::empty());
                    assert(out@.map_values(|c: CMsg| c@).add(it.remaining()) =~= out@
                        .map_values(|c: CMsg| c@));
                }
                break;
            },
        }
    }
    out
}

/// Reinterprets an entry's payload as a value of a fixed-size type, given
/// that type's byte size.
///
/// The caller has already established — typically from the entry's level and
/// type tags — that the payload holds such a value; the consistency check of
/// the native helper, that the declared entry length matches the expected
/// encoded length exactly, is a static precondition here.
pub fn decode(cmsg: &CMsg, size: usize) -> (r: Vec<u8>)
    requires
        cmsg@.len == cmsg_len_spec(size as int),
        cmsg@.data.len() == size,
    ensures
        r@ == cmsg@.data,
{
    let data = cmsg.cmsg_data();
    let n = data.len();
    vstd::slice::slice_to_vec(vstd::slice::slice_subrange(data.as_slice(), 0, n))
}

} // verus!
