use chakchat_core::codec::{decode_envelope, encode_envelope, WIRE_HEADER_SIZE};
use chakchat_core::encryption::TripleLayerEncryption;
use chakchat_core::CryptoError;

#[test]
fn wire_round_trip_preserves_every_field() {
    let mut engine = TripleLayerEncryption::new(&[0x21u8; 32]).unwrap();
    let envelope = engine.encrypt(b"over the wire").unwrap();

    let bytes = encode_envelope(&envelope).unwrap();
    assert_eq!(bytes.len(), WIRE_HEADER_SIZE + envelope.ciphertext.len());

    let back = decode_envelope(&bytes).unwrap();
    assert_eq!(back.version, envelope.version);
    assert_eq!(back.counter, envelope.counter);
    assert_eq!(back.message_id, envelope.message_id);
    assert_eq!(back.timestamp, envelope.timestamp);
    assert_eq!(back.layer1_nonce, envelope.layer1_nonce);
    assert_eq!(back.layer2_nonce, envelope.layer2_nonce);
    assert_eq!(back.layer3_nonce, envelope.layer3_nonce);
    assert_eq!(back.ciphertext, envelope.ciphertext);

    // the decoded envelope still decrypts
    let plaintext = engine.decrypt(&back).unwrap();
    assert_eq!(plaintext, b"over the wire".to_vec());
}

#[test]
fn wire_layout_is_big_endian_at_fixed_offsets() {
    let mut engine = TripleLayerEncryption::new(&[0x22u8; 32]).unwrap();
    let envelope = engine.encrypt(b"ab").unwrap();
    let bytes = encode_envelope(&envelope).unwrap();

    assert_eq!(bytes[0], envelope.version);
    assert_eq!(&bytes[1..9], &envelope.counter.to_be_bytes());
    assert_eq!(&bytes[9..17], &envelope.message_id.to_be_bytes());
    assert_eq!(&bytes[17..25], &envelope.timestamp.to_be_bytes());
    assert_eq!(&bytes[25..49], &envelope.layer1_nonce);
    assert_eq!(&bytes[49..61], &envelope.layer2_nonce);
    assert_eq!(&bytes[61..73], &envelope.layer3_nonce);
    let len = envelope.ciphertext.len() as u32;
    assert_eq!(&bytes[73..77], &len.to_be_bytes());
    assert_eq!(&bytes[77..], &envelope.ciphertext[..]);
    // ciphertext is plaintext length plus three 16-byte tags
    assert_eq!(len, 2 + 48);
}

#[test]
fn malformed_wire_bytes_are_rejected() {
    // too short for the header
    match decode_envelope(&[0u8; 10]) {
        Err(CryptoError::SerializationError(_)) => {}
        other => panic!("expected SerializationError, got {:?}", other.is_ok()),
    }

    // length field disagrees with the remaining bytes
    let mut engine = TripleLayerEncryption::new(&[0x23u8; 32]).unwrap();
    let envelope = engine.encrypt(b"xyz").unwrap();
    let mut bytes = encode_envelope(&envelope).unwrap();
    bytes.pop();
    assert!(decode_envelope(&bytes).is_err());
}
