use decentralized_access_control::status::Status;

#[test]
fn status_bytes_read_back() {
    assert_eq!(Status::try_from(0u8).unwrap(), Status::Denied);
    assert_eq!(Status::try_from(1u8).unwrap(), Status::Allowed);
    assert_eq!(Status::try_from(2u8).unwrap(), Status::FileNotFound);
    assert_eq!(Status::try_from(3u8).unwrap(), Status::ResourceNotFound);
    assert_eq!(Status::try_from(4u8).unwrap(), Status::UnknownError);
    assert_eq!(Status::try_from(200u8).unwrap(), Status::UnknownError);
}

#[test]
fn status_codes_match_declaration_order() {
    assert_eq!(Status::Denied.code(), 0);
    assert_eq!(Status::Allowed.code(), 1);
    assert_eq!(Status::FileNotFound.code(), 2);
    assert_eq!(Status::ResourceNotFound.code(), 3);
    assert_eq!(Status::UnknownError.code(), 4);
}

#[test]
fn status_roundtrip_for_every_status() {
    for s in [
        Status::Denied,
        Status::Allowed,
        Status::FileNotFound,
        Status::ResourceNotFound,
        Status::UnknownError,
    ] {
        assert_eq!(Status::from_code(s.code()), s);
    }
}
