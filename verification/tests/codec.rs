use umbral::codec::{
    be_to_u32, decode_request, decode_response, encode_request, encode_response, u32_to_be,
};

#[test]
fn request_round_trip_simple() {
    let method = b"ping".to_vec();
    let payload = vec![1u8, 2, 3];
    let frame = encode_request(&method, &payload);
    assert_eq!(frame, b"ping[%]\x01\x02\x03".to_vec());
    let decoded = decode_request(&frame).expect("frame holds a delimiter");
    assert_eq!(decoded.0, method);
    assert_eq!(decoded.1, payload);
}

#[test]
fn request_round_trip_empty_payload() {
    let method = b"status".to_vec();
    let payload: Vec<u8> = Vec::new();
    let frame = encode_request(&method, &payload);
    let decoded = decode_request(&frame).expect("frame holds a delimiter");
    assert_eq!(decoded.0, method);
    assert_eq!(decoded.1, payload);
}

#[test]
fn request_round_trip_empty_method() {
    let method: Vec<u8> = Vec::new();
    let payload = b"data".to_vec();
    let frame = encode_request(&method, &payload);
    let decoded = decode_request(&frame).expect("frame holds a delimiter");
    assert_eq!(decoded.0, method);
    assert_eq!(decoded.1, payload);
}

#[test]
fn request_splits_at_first_delimiter() {
    // the payload may hold the delimiter; the split happens at the first one
    let method = b"m".to_vec();
    let payload = b"a[%]b".to_vec();
    let frame = encode_request(&method, &payload);
    let decoded = decode_request(&frame).expect("frame holds a delimiter");
    assert_eq!(decoded.0, method);
    assert_eq!(decoded.1, payload);
}

#[test]
fn request_method_ending_in_bracket() {
    // a method name may end with a prefix of the delimiter without harm
    let method = b"x[".to_vec();
    let payload = b"y".to_vec();
    let frame = encode_request(&method, &payload);
    assert_eq!(frame, b"x[[%]y".to_vec());
    let decoded = decode_request(&frame).expect("frame holds a delimiter");
    assert_eq!(decoded.0, method);
    assert_eq!(decoded.1, payload);
}

#[test]
fn request_without_delimiter_decodes_to_nothing() {
    let data = b"no delimiter here".to_vec();
    assert!(decode_request(&data).is_none());
}

#[test]
fn big_endian_length_bytes_exact() {
    assert_eq!(u32_to_be(0), vec![0u8, 0, 0, 0]);
    assert_eq!(u32_to_be(1), vec![0u8, 0, 0, 1]);
    assert_eq!(u32_to_be(0xDEAD_BEEF), vec![0xDEu8, 0xAD, 0xBE, 0xEF]);
    assert_eq!(u32_to_be(u32::MAX), vec![0xFFu8, 0xFF, 0xFF, 0xFF]);
    let bytes = vec![0x12u8, 0x34, 0x56, 0x78];
    assert_eq!(be_to_u32(&bytes), 0x1234_5678);
}

#[test]
fn response_frame_exact_bytes() {
    let payload = b"abc".to_vec();
    let frame = encode_response(&payload);
    assert_eq!(frame, vec![0u8, 0, 0, 3, b'a', b'b', b'c']);
}

#[test]
fn response_round_trip_reads_exactly_declared_length() {
    let payload = b"hello".to_vec();
    let mut stream = encode_response(&payload);
    // later bytes on the stream must not leak into this frame
    stream.extend_from_slice(b"NEXT FRAME");
    let (decoded, consumed) = decode_response(&stream).expect("whole frame present");
    assert_eq!(decoded, payload);
    assert_eq!(consumed, 4 + payload.len());
}

#[test]
fn response_empty_payload() {
    let payload: Vec<u8> = Vec::new();
    let frame = encode_response(&payload);
    assert_eq!(frame, vec![0u8, 0, 0, 0]);
    let (decoded, consumed) = decode_response(&frame).expect("whole frame present");
    assert!(decoded.is_empty());
    assert_eq!(consumed, 4);
}

#[test]
fn truncated_response_decodes_to_nothing() {
    let payload = b"hello".to_vec();
    let frame = encode_response(&payload);
    for cut in 0..frame.len() {
        let truncated = frame[..cut].to_vec();
        assert!(decode_response(&truncated).is_none());
    }
}

#[test]
fn response_with_short_header_decodes_to_nothing() {
    assert!(decode_response(&Vec::new()).is_none());
    assert!(decode_response(&vec![0u8, 0, 0]).is_none());
}
