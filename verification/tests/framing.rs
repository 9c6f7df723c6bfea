use lemonade::framing::{encode_frame, frame_length, u32_to_be_bytes, FrameDecoder};

#[test]
fn encode_frame_prefixes_big_endian_length() {
    assert_eq!(encode_frame(b"hi"), vec![0, 0, 0, 2, b'h', b'i']);
}

#[test]
fn encode_frame_of_empty_payload_is_header_only() {
    assert_eq!(encode_frame(b""), vec![0, 0, 0, 0]);
}

#[test]
fn encode_frame_of_long_payload() {
    let payload = vec![7u8; 0x0102];
    let f = encode_frame(&payload);
    assert_eq!(&f[..4], &[0, 0, 1, 2]);
    assert_eq!(&f[4..], &payload[..]);
}

#[test]
fn u32_to_be_bytes_matches_std() {
    for n in [0u32, 1, 255, 256, 0x0102_0304, u32::MAX] {
        assert_eq!(u32_to_be_bytes(n), n.to_be_bytes());
    }
}

#[test]
fn frame_length_reads_big_endian() {
    assert_eq!(frame_length([0, 0, 1, 0]), 256);
    assert_eq!(frame_length([0x12, 0x34, 0x56, 0x78]), 0x1234_5678);
    assert_eq!(frame_length([0xff, 0xff, 0xff, 0xff]), u32::MAX);
}

#[test]
fn decoder_waits_for_whole_frame() {
    let mut d = FrameDecoder::new();
    d.push(&[0, 0, 0]);
    assert!(d.drain_frames().is_empty());
    d.push(&[3, b'a', b'b']);
    assert!(d.drain_frames().is_empty());
    d.push(&[b'c']);
    assert_eq!(d.drain_frames(), vec![b"abc".to_vec()]);
    assert!(d.drain_frames().is_empty());
}

#[test]
fn decoder_splits_several_frames_in_order() {
    let mut bytes = encode_frame(b"one");
    bytes.extend(encode_frame(b""));
    bytes.extend(encode_frame(b"three"));
    bytes.extend(&[0, 0, 0, 9, b'x']);
    let mut d = FrameDecoder::new();
    d.push(&bytes);
    assert_eq!(
        d.drain_frames(),
        vec![b"one".to_vec(), b"".to_vec(), b"three".to_vec()]
    );
    d.push(b"12345678");
    assert_eq!(d.drain_frames(), vec![b"x12345678".to_vec()]);
}

#[test]
fn decoder_accepts_bytes_one_at_a_time() {
    let mut bytes = encode_frame(b"hello");
    bytes.extend(encode_frame(b"world"));
    let mut d = FrameDecoder::new();
    let mut got = Vec::new();
    for b in bytes {
        d.push(&[b]);
        got.extend(d.drain_frames());
    }
    assert_eq!(got, vec![b"hello".to_vec(), b"world".to_vec()]);
}
