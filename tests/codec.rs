use nebula_notebook::codec::{decode_notebook_file, encode_notebook_file};
use nebula_notebook::error::ErrorCode;
use nebula_notebook::header::{FileHeader, FILE_FORMAT_CURRENT_VERSION, FILE_HEADER_SIZE};

#[test]
fn header_is_four_little_endian_bytes() {
    let h = FileHeader::new();
    assert_eq!(h.version, FILE_FORMAT_CURRENT_VERSION);
    assert_eq!(h.to_bytes(), vec![1, 0, 0, 0]);
    assert_eq!(FILE_HEADER_SIZE, 4);
    let odd = FileHeader { version: 0x0403_0201 };
    assert_eq!(odd.to_bytes(), vec![1, 2, 3, 4]);
    assert_eq!(FileHeader::from_bytes(&[1, 2, 3, 4, 9]), Some(odd));
    assert_eq!(FileHeader::from_bytes(&[1, 2, 3]), None);
}

#[test]
fn file_round_trip_returns_payload() {
    let payload: Vec<u8> = vec![7, 0, 255, 42, 1];
    let bytes = encode_notebook_file(&payload);
    assert_eq!(bytes, vec![1, 0, 0, 0, 7, 0, 255, 42, 1]);
    assert_eq!(decode_notebook_file(&bytes), Ok(payload));
}

#[test]
fn empty_payload_round_trip() {
    let bytes = encode_notebook_file(&[]);
    assert_eq!(bytes.len(), 4);
    assert_eq!(decode_notebook_file(&bytes), Ok(Vec::new()));
}

#[test]
fn other_version_is_unsupported() {
    assert_eq!(decode_notebook_file(&[2, 0, 0, 0, 1, 2, 3]), Err(ErrorCode::Unsupported));
    assert_eq!(decode_notebook_file(&[0, 0, 0, 0]), Err(ErrorCode::Unsupported));
    assert_eq!(decode_notebook_file(&[1, 0, 0, 1, 9]), Err(ErrorCode::Unsupported));
}

#[test]
fn short_file_fails_to_deserialize() {
    assert_eq!(decode_notebook_file(&[1, 0, 0]), Err(ErrorCode::DeserializationError));
    assert_eq!(decode_notebook_file(&[]), Err(ErrorCode::DeserializationError));
}
