use tarpc_bench::codec::{IntCodec, FRAME_LEN};

#[test]
fn encode_writes_big_endian_frame() {
    let mut c = IntCodec::default();
    let mut out = vec![0xaa];
    c.encode((0x0102030405060708, 143), &mut out).unwrap();
    assert_eq!(
        out,
        vec![0xaa, 1, 2, 3, 4, 5, 6, 7, 8, 0, 0, 0, 0, 0, 0, 0, 0x8f]
    );
}

#[test]
fn decode_reads_big_endian_frame_and_keeps_rest() {
    let mut c = IntCodec;
    let mut buf = vec![0, 3, 0x43, 0x95, 0x4d, 0x60, 0x86, 0x83, 0, 0, 0, 0, 0, 0, 0, 2, 9, 9];
    let r = c.decode(&mut buf).unwrap();
    assert_eq!(r, Some((918733457491587, 2)));
    assert_eq!(buf, vec![9, 9]);
}

#[test]
fn decode_incomplete_leaves_buffer() {
    let mut c = IntCodec;
    let mut buf: Vec<u8> = (0..15).collect();
    assert_eq!(c.decode(&mut buf).unwrap(), None);
    assert_eq!(buf, (0..15).collect::<Vec<u8>>());
    let mut empty: Vec<u8> = Vec::new();
    assert_eq!(c.decode(&mut empty).unwrap(), None);
    assert!(empty.is_empty());
}

#[test]
fn decode_eof_takes_last_frame() {
    let mut c = IntCodec;
    let mut buf = Vec::new();
    c.encode((7, u64::MAX), &mut buf).unwrap();
    assert_eq!(buf.len(), FRAME_LEN);
    assert_eq!(c.decode_eof(&mut buf).unwrap(), (7, u64::MAX));
    assert!(buf.is_empty());
}

#[test]
fn frames_roundtrip_in_order() {
    let mut c = IntCodec;
    let frames = [(0u64, 0u64), (1, 2), (u64::MAX, 0x8000_0000_0000_0001), (42, 1 << 40)];
    let mut buf = Vec::new();
    for f in frames.iter() {
        c.encode(*f, &mut buf).unwrap();
    }
    assert_eq!(buf.len(), frames.len() * FRAME_LEN);
    for f in frames.iter() {
        assert_eq!(c.decode(&mut buf).unwrap(), Some(*f));
    }
    assert_eq!(c.decode(&mut buf).unwrap(), None);
}

#[test]
fn reencoding_decoded_frame_gives_same_bytes() {
    let mut c = IntCodec;
    let original: Vec<u8> = (100..116).collect();
    let mut buf = original.clone();
    let frame = c.decode(&mut buf).unwrap().unwrap();
    let mut out = Vec::new();
    c.encode(frame, &mut out).unwrap();
    assert_eq!(out, original);
}
