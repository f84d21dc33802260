use svcmgr::protocol::{decode, encode, Request, MAX_FRAME};

#[test]
fn round_trip_start() {
    let req = Request::Start("web".to_string());
    let frame = encode(&req).unwrap();
    assert_eq!(frame, vec![1u8, 3, 0, 0, 0, b'w', b'e', b'b']);
    assert_eq!(decode(&frame), Some(req));
}

#[test]
fn round_trip_stop() {
    let req = Request::Stop("db".to_string());
    let frame = encode(&req).unwrap();
    assert_eq!(frame, vec![2u8, 2, 0, 0, 0, b'd', b'b']);
    assert_eq!(decode(&frame), Some(req));
}

#[test]
fn round_trip_status() {
    let req = Request::Status("cache".to_string());
    let frame = encode(&req).unwrap();
    assert_eq!(frame[0], 3u8);
    assert_eq!(decode(&frame), Some(req));
}

#[test]
fn round_trip_reload_and_no_command() {
    assert_eq!(encode(&Request::Reload).unwrap(), vec![4u8]);
    assert_eq!(decode(&[4u8]), Some(Request::Reload));
    assert_eq!(encode(&Request::NoCommand).unwrap(), vec![0u8]);
    assert_eq!(decode(&[0u8]), Some(Request::NoCommand));
}

#[test]
fn round_trip_non_ascii_name() {
    let req = Request::Start("naïve-служба".to_string());
    let frame = encode(&req).unwrap();
    assert_eq!(decode(&frame), Some(req));
}

#[test]
fn round_trip_empty_name() {
    let req = Request::Status(String::new());
    let frame = encode(&req).unwrap();
    assert_eq!(frame, vec![3u8, 0, 0, 0, 0]);
    assert_eq!(decode(&frame), Some(req));
}

#[test]
fn decode_rejects_empty_input() {
    assert_eq!(decode(&[]), None);
}

#[test]
fn decode_rejects_unknown_tag() {
    assert_eq!(decode(&[9u8, 0, 0, 0, 0]), None);
}

#[test]
fn decode_rejects_trailing_bytes_on_plain_tag() {
    assert_eq!(decode(&[4u8, 1]), None);
    assert_eq!(decode(&[0u8, 0]), None);
}

#[test]
fn decode_rejects_truncated_header() {
    assert_eq!(decode(&[1u8, 3, 0]), None);
}

#[test]
fn decode_rejects_wrong_length_field() {
    // claims 4 payload bytes but carries 3
    assert_eq!(decode(&[1u8, 4, 0, 0, 0, b'w', b'e', b'b']), None);
    // claims 2 payload bytes but carries 3
    assert_eq!(decode(&[1u8, 2, 0, 0, 0, b'w', b'e', b'b']), None);
}

#[test]
fn decode_rejects_invalid_utf8_payload() {
    assert_eq!(decode(&[1u8, 2, 0, 0, 0, 0xff, 0xfe]), None);
}

#[test]
fn decode_rejects_oversized_frame() {
    let mut frame = vec![1u8];
    let n: usize = MAX_FRAME; // payload alone already overruns the bound
    frame.extend_from_slice(&[(n % 256) as u8, ((n / 256) % 256) as u8, 0, 0]);
    frame.extend(std::iter::repeat(b'a').take(n));
    assert_eq!(decode(&frame), None);
}

#[test]
fn encode_rejects_oversized_name() {
    let name: String = std::iter::repeat('a').take(MAX_FRAME).collect();
    assert_eq!(encode(&Request::Start(name)), None);
}

#[test]
fn encode_accepts_largest_name() {
    let name: String = std::iter::repeat('a').take(MAX_FRAME - 5).collect();
    let req = Request::Start(name);
    let frame = encode(&req).unwrap();
    assert_eq!(frame.len(), MAX_FRAME);
    assert_eq!(decode(&frame), Some(req));
}
