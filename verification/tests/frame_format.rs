use enamel_gtk::frame::{
    body_size, decode_frame, decode_header, encode_frame, encode_header, HEADER_LEN,
    MAX_MESSAGE_SZ,
};

#[test]
fn header_is_big_endian() {
    assert_eq!(encode_header(0x0102030405060708), vec![1, 2, 3, 4, 5, 6, 7, 8]);
    assert_eq!(encode_header(0), vec![0; 8]);
    assert_eq!(encode_header(300), vec![0, 0, 0, 0, 0, 0, 1, 44]);
    assert_eq!(encode_header(u64::MAX), vec![0xff; 8]);
}

#[test]
fn header_matches_std_big_endian() {
    for n in [0u64, 1, 255, 256, 65_535, 1 << 40, u64::MAX - 1] {
        assert_eq!(encode_header(n), n.to_be_bytes().to_vec());
    }
}

#[test]
fn header_roundtrip() {
    for n in [0u64, 7, 1 << 32, 209_715_200, u64::MAX] {
        assert_eq!(decode_header(&encode_header(n)), Some(n));
    }
}

#[test]
fn header_reads_only_first_eight_bytes() {
    let bytes = [0, 0, 0, 0, 0, 0, 0, 9, 0xaa, 0xbb];
    assert_eq!(decode_header(&bytes), Some(9));
}

#[test]
fn short_header_is_refused() {
    assert_eq!(decode_header(&[]), None);
    assert_eq!(decode_header(&[1, 2, 3, 4, 5, 6, 7]), None);
}

#[test]
fn body_size_caps_at_maximum() {
    assert_eq!(MAX_MESSAGE_SZ, 200 * 1024 * 1024);
    assert_eq!(body_size(0), 0);
    assert_eq!(body_size(10), 10);
    assert_eq!(body_size(MAX_MESSAGE_SZ - 1), (MAX_MESSAGE_SZ - 1) as usize);
    assert_eq!(body_size(MAX_MESSAGE_SZ), MAX_MESSAGE_SZ as usize);
    assert_eq!(body_size(MAX_MESSAGE_SZ + 1), MAX_MESSAGE_SZ as usize);
    assert_eq!(body_size(u64::MAX), MAX_MESSAGE_SZ as usize);
}

#[test]
fn frame_is_header_then_payload() {
    assert_eq!(
        encode_frame(b"abc"),
        vec![0, 0, 0, 0, 0, 0, 0, 3, b'a', b'b', b'c']
    );
    assert_eq!(encode_frame(&[]), vec![0; HEADER_LEN]);
}

#[test]
fn frame_roundtrip_leaves_the_rest() {
    let payload = b"hello thread view".to_vec();
    let mut stream = encode_frame(&payload);
    stream.extend_from_slice(&encode_frame(b"next"));
    let (body, used) = decode_frame(&stream).unwrap();
    assert_eq!(body, payload);
    assert_eq!(used, HEADER_LEN + payload.len());
    let (second, used2) = decode_frame(&stream[used..]).unwrap();
    assert_eq!(second, b"next".to_vec());
    assert_eq!(used + used2, stream.len());
}

#[test]
fn empty_frame_roundtrip() {
    let stream = encode_frame(&[]);
    assert_eq!(decode_frame(&stream), Some((vec![], HEADER_LEN)));
}

#[test]
fn frame_with_short_header_is_refused() {
    assert_eq!(decode_frame(&[0, 0, 0, 0, 0, 0, 0]), None);
    assert_eq!(decode_frame(&[]), None);
}

#[test]
fn stream_ending_early_gives_what_is_there() {
    let stream = [0, 0, 0, 0, 0, 0, 0, 10, 1, 2, 3];
    assert_eq!(decode_frame(&stream), Some((vec![1, 2, 3], 11)));
}

#[test]
fn huge_announced_length_reads_at_most_what_is_there() {
    let mut stream = encode_header(u64::MAX);
    stream.extend_from_slice(&[5, 6]);
    assert_eq!(decode_frame(&stream), Some((vec![5, 6], 10)));
}

#[test]
fn oversized_body_is_cut_at_maximum() {
    let max = MAX_MESSAGE_SZ as usize;
    let payload = vec![7u8; max + 3];
    let stream = encode_frame(&payload);
    let (body, used) = decode_frame(&stream).unwrap();
    assert_eq!(body.len(), max);
    assert_eq!(used, HEADER_LEN + max);
    assert_eq!(&stream[used..], &[7u8, 7, 7][..]);
}
