use cmsg_core::decode::{collect_entries, decode, Iter};
use cmsg_core::encode::Encoder;
use cmsg_core::hdr::MsgHdr;
use cmsg_core::layout::{align_up, cmsg_len, cmsg_space};
use cmsg_core::sys::{SysMsgHdr, SysMsgHdrX};

#[test]
fn recv_errors_retry_unless_not_connected() {
    assert!(cmsg_core::runtime::should_retry_recv(false));
    assert!(!cmsg_core::runtime::should_retry_recv(true));
}

fn le64(x: u64) -> [u8; 8] {
    x.to_le_bytes()
}

fn read_le64(b: &[u8]) -> u64 {
    let mut a = [0u8; 8];
    a.copy_from_slice(&b[..8]);
    u64::from_le_bytes(a)
}

#[test]
fn sizing_formulas_exact() {
    assert_eq!(cmsg_len(0), 16);
    assert_eq!(cmsg_len(1), 17);
    assert_eq!(cmsg_len(5), 21);
    assert_eq!(cmsg_len(8), 24);
    assert_eq!(cmsg_space(0), 16);
    assert_eq!(cmsg_space(1), 24);
    assert_eq!(cmsg_space(4), 24);
    assert_eq!(cmsg_space(8), 24);
    assert_eq!(cmsg_space(9), 32);
    assert_eq!(align_up(0), 0);
    assert_eq!(align_up(1), 8);
    assert_eq!(align_up(8), 8);
    assert_eq!(align_up(17), 24);
    assert!(cmsg_space(5) >= cmsg_len(5));
}

#[test]
fn round_trip_three_entries() {
    // garbage in the buffer must not survive into decoded payloads
    let hdr = SysMsgHdr::new(vec![0xAA; 128], 128);
    let mut enc = Encoder::new(hdr);
    enc.push(1, 2, &[1, 2, 3, 4], 4);
    enc.push(6, 7, &le64(0xDEAD_BEEF_0BAD_F00D), 8);
    enc.push(0, 0, &[9], 1);
    let hdr = enc.finish();
    assert_eq!(hdr.control_len(), 72);

    let mut it = Iter::new(&hdr);
    let e1 = it.next().expect("first entry");
    assert_eq!(e1.cmsg_level, 1);
    assert_eq!(e1.cmsg_type, 2);
    assert_eq!(e1.len(), 20);
    assert_eq!(e1.cmsg_data().as_slice(), &[1, 2, 3, 4]);

    let e2 = it.next().expect("second entry");
    assert_eq!(e2.cmsg_level, 6);
    assert_eq!(e2.cmsg_type, 7);
    assert_eq!(e2.len(), 24);
    assert_eq!(e2.cmsg_data().as_slice(), &le64(0xDEAD_BEEF_0BAD_F00D));

    let e3 = it.next().expect("third entry");
    assert_eq!(e3.cmsg_level, 0);
    assert_eq!(e3.cmsg_type, 0);
    assert_eq!(e3.len(), 17);
    assert_eq!(e3.cmsg_data().as_slice(), &[9]);

    assert!(it.next().is_none());
    assert!(it.next().is_none());
}

#[test]
fn round_trip_on_fast_path_layout() {
    // the alternate layout encodes and decodes the same chain; its guarded
    // next lookup needs the following entry header to look sane, so start
    // from a zeroed buffer and check entry by entry
    let hdr = SysMsgHdrX::new(vec![0u8; 64], 64);
    let mut enc = Encoder::new(hdr);
    assert!(enc.try_push(3, 4, &[5, 6], 2));
    let hdr = enc.finish();
    assert_eq!(hdr.control_len(), 24);
    let got = collect_entries(&hdr);
    assert_eq!(got.len(), 1);
    assert_eq!(got[0].cmsg_level, 3);
    assert_eq!(got[0].cmsg_type, 4);
    assert_eq!(got[0].cmsg_data().as_slice(), &[5, 6]);
}

#[test]
fn space_accounting_matches_sum() {
    let hdr = SysMsgHdr::new(vec![0u8; 96], 96);
    let mut enc = Encoder::new(hdr);
    enc.push(1, 1, &[0; 3], 1);
    enc.push(2, 2, &[0; 12], 4);
    let hdr = enc.finish();
    assert_eq!(hdr.control_len(), cmsg_space(3) + cmsg_space(12));
    assert!(hdr.control_len() <= 96);
}

#[test]
fn payload_alignment_invariant() {
    // entries with ragged payload sizes still start payloads on the entry
    // alignment boundary
    let hdr = SysMsgHdr::new(vec![0u8; 96], 96);
    let mut enc = Encoder::new(hdr);
    enc.push(1, 1, &[7; 3], 1);
    enc.push(2, 2, &[8; 5], 1);
    enc.push(3, 3, &le64(42), 8);
    let hdr = enc.finish();
    let buf = hdr.control();
    // entry offsets are 0, 24, 48: each length field reads back exactly
    assert_eq!(read_le64(&buf[0..8]), 19);
    assert_eq!(read_le64(&buf[24..32]), 21);
    assert_eq!(read_le64(&buf[48..56]), 24);
    // payload offsets 16, 40, 64 are all 8-byte aligned
    assert_eq!(&buf[16..19], &[7, 7, 7]);
    assert_eq!(&buf[40..45], &[8; 5]);
    assert_eq!(&buf[64..72], &le64(42));
}

#[test]
fn raw_layout_of_one_entry() {
    let hdr = SysMsgHdr::new(vec![0u8; 32], 32);
    let mut enc = Encoder::new(hdr);
    enc.push(0x0102_0304, -2, &[0xEE, 0xFF], 2);
    let hdr = enc.finish();
    let buf = hdr.control();
    assert_eq!(read_le64(&buf[0..8]), 18);
    assert_eq!(&buf[8..12], &0x0102_0304i32.to_le_bytes());
    assert_eq!(&buf[12..16], &(-2i32).to_le_bytes());
    assert_eq!(&buf[16..18], &[0xEE, 0xFF]);
}

#[test]
fn negative_tags_round_trip() {
    let hdr = SysMsgHdr::new(vec![0u8; 32], 32);
    let mut enc = Encoder::new(hdr);
    enc.push(-1, i32::MIN, &[1], 1);
    let hdr = enc.finish();
    let got = collect_entries(&hdr);
    assert_eq!(got.len(), 1);
    assert_eq!(got[0].cmsg_level, -1);
    assert_eq!(got[0].cmsg_type, i32::MIN);
}

#[test]
fn insufficient_space_rejected_writes_nothing() {
    let hdr = SysMsgHdr::new(vec![0u8; 40], 40);
    let mut enc = Encoder::new(hdr);
    enc.push(1, 1, &[1, 2, 3, 4], 4);
    // 16 bytes remain; a four-byte payload needs 24
    assert!(!enc.try_push(2, 2, &[5, 6, 7, 8], 4));
    let hdr = enc.finish();
    assert_eq!(hdr.control_len(), 24);
    let got = collect_entries(&hdr);
    assert_eq!(got.len(), 1);
    assert_eq!(got[0].cmsg_level, 1);
}

#[test]
fn oversized_alignment_rejected() {
    // a payload whose alignment requirement exceeds the entry alignment is
    // a caller-contract violation; the checked append refuses it
    let hdr = SysMsgHdr::new(vec![0u8; 64], 64);
    let mut enc = Encoder::new(hdr);
    assert!(!enc.try_push(1, 1, &[0; 16], 16));
    let hdr = enc.finish();
    assert_eq!(hdr.control_len(), 0);
}

#[test]
fn malformed_chain_terminates_on_guarded_family() {
    // a well-formed first entry, followed by a continuation entry whose
    // declared length is smaller than an entry header
    let mut buf = vec![0u8; 48];
    buf[0..8].copy_from_slice(&le64(20));
    buf[8..12].copy_from_slice(&9i32.to_le_bytes());
    buf[12..16].copy_from_slice(&8i32.to_le_bytes());
    buf[16..20].copy_from_slice(&[1, 2, 3, 4]);
    buf[24..32].copy_from_slice(&le64(5));
    let hdr = SysMsgHdrX::new(buf, 48);
    let mut it = Iter::new(&hdr);
    let e = it.next().expect("the good entry");
    assert_eq!(e.cmsg_level, 9);
    assert_eq!(e.cmsg_type, 8);
    assert_eq!(e.cmsg_data().as_slice(), &[1, 2, 3, 4]);
    // the truncated continuation is never yielded
    assert!(it.next().is_none());
}

#[test]
fn malformed_chain_terminates_on_standard_family() {
    // the standard lookup yields the undersized entry once and then stops;
    // it must not loop
    let mut buf = vec![0u8; 48];
    buf[0..8].copy_from_slice(&le64(20));
    buf[16..20].copy_from_slice(&[1, 2, 3, 4]);
    buf[24..32].copy_from_slice(&le64(5));
    let hdr = SysMsgHdr::new(buf, 48);
    let got = collect_entries(&hdr);
    assert_eq!(got.len(), 2);
    assert_eq!(got[1].len(), 5);
    assert!(got[1].cmsg_data().is_empty());
}

#[test]
fn zero_length_entry_does_not_loop() {
    let hdr = SysMsgHdr::new(vec![0u8; 48], 48);
    let got = collect_entries(&hdr);
    assert_eq!(got.len(), 1);
    assert_eq!(got[0].len(), 0);
}

#[test]
fn empty_buffer_commits_zero_and_nulls() {
    let hdr = SysMsgHdr::new(Vec::new(), 0);
    let enc = Encoder::new(hdr);
    let hdr = enc.finish();
    assert_eq!(hdr.control_len(), 0);
    assert!(hdr.control_is_null());
    assert!(Iter::new(&hdr).next().is_none());
}

#[test]
fn commit_of_zero_nulls_only_where_required() {
    // the standard family nulls the control pointer on a zero commit; the
    // alternate layout leaves its buffer in place
    let hdr = SysMsgHdr::new(vec![0u8; 32], 32);
    let hdr = Encoder::new(hdr).finish();
    assert_eq!(hdr.control_len(), 0);
    assert!(hdr.control_is_null());
    assert!(hdr.control().is_empty());

    let hdr_x = SysMsgHdrX::new(vec![0u8; 32], 32);
    let hdr_x = Encoder::new(hdr_x).finish();
    assert_eq!(hdr_x.control_len(), 0);
    assert_eq!(hdr_x.control().len(), 32);
}

fn encode_until(stop_early: bool) -> SysMsgHdr {
    let hdr = SysMsgHdr::new(vec![0u8; 96], 96);
    let mut enc = Encoder::new(hdr);
    enc.push(1, 1, &[1, 2, 3, 4], 4);
    if stop_early {
        // an early exit still commits exactly what was written so far
        return enc.finish();
    }
    enc.push(2, 2, &[5, 6, 7, 8], 4);
    enc.finish()
}

#[test]
fn commit_on_every_exit_path() {
    let early = encode_until(true);
    assert_eq!(early.control_len(), 24);
    assert_eq!(collect_entries(&early).len(), 1);

    let full = encode_until(false);
    assert_eq!(full.control_len(), 48);
    assert_eq!(collect_entries(&full).len(), 2);
}

#[test]
fn decode_returns_payload_bytes() {
    let hdr = SysMsgHdr::new(vec![0u8; 32], 32);
    let mut enc = Encoder::new(hdr);
    enc.push(10, 11, &le64(7), 8);
    let hdr = enc.finish();
    let mut it = Iter::new(&hdr);
    let e = it.next().expect("entry");
    // the entry announces exactly the encoded length for an 8-byte value
    assert_eq!(e.len() as usize, cmsg_len(8));
    let v = decode(&e, 8);
    assert_eq!(v.as_slice(), &le64(7));
    assert_eq!(u64::from_le_bytes(v.try_into().unwrap()), 7);
}

#[test]
fn iterator_is_not_restartable_but_fresh_one_is() {
    let hdr = SysMsgHdr::new(vec![0u8; 32], 32);
    let mut enc = Encoder::new(hdr);
    enc.push(1, 2, &[3], 1);
    let hdr = enc.finish();
    let mut it = Iter::new(&hdr);
    assert!(it.next().is_some());
    assert!(it.next().is_none());
    assert!(it.next().is_none());
    let mut fresh = Iter::new(&hdr);
    assert!(fresh.next().is_some());
}
