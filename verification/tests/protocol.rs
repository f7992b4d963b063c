use decentralized_access_control::access_list::AccessList;
use decentralized_access_control::endpoint::EndpointId;
use decentralized_access_control::protocol::access_control::{
    check_access, download_status_code, DownloadOutcome, resource_of_key, upstream_accepted, Request,
};
use decentralized_access_control::protocol::framing::{decode_frame, encode_frame, frame_length};
use decentralized_access_control::status::Status;

fn id(b: u8) -> EndpointId {
    EndpointId::from_bytes([b; 32])
}

#[test]
fn request_keeps_its_fields() {
    let r = Request::new(3, String::from("res"), String::from("a.mp4"));
    assert_eq!(r.retry_attempts(), 3);
    assert_eq!(r.resource, "res");
    assert_eq!(r.filename, "a.mp4");
}

#[test]
fn decrement_attempts_saturates_at_zero() {
    let mut r = Request::new(2, String::from("res"), String::from("f"));
    assert_eq!(r.decrement_attempts(), 1);
    assert_eq!(r.decrement_attempts(), 0);
    assert_eq!(r.decrement_attempts(), 0);
    assert_eq!(r.retry_attempts(), 0);
    assert_eq!(r.resource, "res");
}

#[test]
fn frame_header_is_big_endian_length() {
    assert_eq!(encode_frame(&vec![1, 2, 3]), vec![0, 0, 0, 3, 1, 2, 3]);
    assert_eq!(encode_frame(&vec![]), vec![0, 0, 0, 0]);
    let payload = vec![7u8; 300];
    let frame = encode_frame(&payload);
    assert_eq!(&frame[..4], &[0, 0, 1, 44]);
    assert_eq!(frame.len(), 304);
}

#[test]
fn frame_length_reads_big_endian() {
    assert_eq!(frame_length([0, 0, 1, 0]), 256);
    assert_eq!(frame_length([1, 2, 3, 4]), 0x01020304);
    assert_eq!(frame_length([255, 255, 255, 255]), u32::MAX);
}

#[test]
fn frame_roundtrip_ignores_trailing_bytes() {
    let payload = b"{\"resource\":\"r\"}".to_vec();
    let mut frame = encode_frame(&payload);
    assert_eq!(decode_frame(&frame), Some(payload.clone()));
    frame.extend_from_slice(&[9, 9, 9]);
    assert_eq!(decode_frame(&frame), Some(payload));
}

#[test]
fn short_frames_are_rejected() {
    assert_eq!(decode_frame(&[0, 0, 0]), None);
    assert_eq!(decode_frame(&[0, 0, 0, 5, 1, 2]), None);
    assert_eq!(decode_frame(&[0, 0, 0, 0]), Some(vec![]));
}

#[test]
fn missing_access_list_answers_resource_not_found() {
    assert_eq!(check_access(None, &id(1)), Err(Status::ResourceNotFound));
}

#[test]
fn unlisted_peer_is_denied() {
    let mut list = AccessList::new();
    list.insert(id(2));
    assert_eq!(check_access(Some(&list), &id(1)), Err(Status::Denied));
}

#[test]
fn listed_peer_is_let_through() {
    let mut list = AccessList::new();
    list.insert(id(2));
    list.insert(id(1));
    assert_eq!(check_access(Some(&list), &id(1)), Ok(()));
}

#[test]
fn only_allowed_byte_is_accepted_upstream() {
    assert!(upstream_accepted(1));
    for b in [0u8, 2, 3, 4, 5, 255] {
        assert!(!upstream_accepted(b));
    }
}

#[test]
fn document_keys_must_be_utf8() {
    assert_eq!(resource_of_key(b"7075abc".to_vec()), Some(String::from("7075abc")));
    assert_eq!(resource_of_key("héllo".as_bytes().to_vec()), Some(String::from("héllo")));
    assert_eq!(resource_of_key(vec![0x66, 0xff, 0x66]), None);
}

#[test]
fn download_outcomes_map_to_http_codes() {
    assert_eq!(download_status_code(DownloadOutcome::Served), 200);
    assert_eq!(download_status_code(DownloadOutcome::Refused), 403);
    assert_eq!(download_status_code(DownloadOutcome::Failed), 404);
}
