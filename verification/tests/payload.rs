//! Payload compression: DEFLATE round trips and corrupt streams.

use keyhaven::model::{compress_payload, decompress_payload};
use keyhaven::vault::repository::ModelError;

#[test]
fn compressed_payload_round_trips() {
    let json = br#"{"entries":[],"customServices":[],"settings":{}}"#.repeat(20);
    let packed = compress_payload(&json).expect("compression succeeds");
    assert_ne!(packed, json);
    assert!(packed.len() < json.len());
    assert_eq!(decompress_payload(&packed).unwrap(), json);
}

#[test]
fn empty_payload_round_trips() {
    let packed = compress_payload(&[]).unwrap();
    assert!(!packed.is_empty());
    assert_eq!(decompress_payload(&packed).unwrap(), Vec::<u8>::new());
}

#[test]
fn corrupt_payload_is_a_deserialize_error() {
    let err = decompress_payload(&[0xFF, 0xFF, 0xFF, 0xFF]).unwrap_err();
    assert!(matches!(err, ModelError::Deserialize(_)));
    let packed = compress_payload(b"hello hello hello hello").unwrap();
    let err = decompress_payload(&packed[..packed.len() / 2]).unwrap_err();
    assert!(matches!(err, ModelError::Deserialize(_)));
}
