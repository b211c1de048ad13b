use chakchat_core::encryption::{TripleLayerEncryption, KEY_SIZE, MAX_MESSAGE_SIZE};
use chakchat_core::{CryptoError, PROTOCOL_VERSION};

#[test]
fn test_triple_layer_encryption_decryption() {
    let shared_secret = [42u8; KEY_SIZE];
    let mut encryptor = TripleLayerEncryption::new(&shared_secret).unwrap();

    let plaintext = b"Hello, ChakChat! This is MAXIMAL SICHERHEIT!";
    let encrypted = encryptor.encrypt(plaintext).unwrap();

    assert_ne!(encrypted.ciphertext, plaintext.to_vec());
    assert_eq!(encrypted.counter, 1);

    let decrypted = encryptor.decrypt(&encrypted).unwrap();
    assert_eq!(decrypted, plaintext.to_vec());
}

#[test]
fn test_large_message_encryption() {
    let shared_secret = [13u8; KEY_SIZE];
    let mut encryptor = TripleLayerEncryption::new(&shared_secret).unwrap();

    let plaintext = vec![0xFFu8; 10 * 1024 * 1024];
    let encrypted = encryptor.encrypt(&plaintext).unwrap();

    let decrypted = encryptor.decrypt(&encrypted).unwrap();
    assert_eq!(decrypted, plaintext);
}

#[test]
fn test_multiple_encryptions_different_keys() {
    let shared_secret1 = [1u8; KEY_SIZE];
    let shared_secret2 = [2u8; KEY_SIZE];

    let mut enc1 = TripleLayerEncryption::new(&shared_secret1).unwrap();
    let mut enc2 = TripleLayerEncryption::new(&shared_secret2).unwrap();

    let plaintext = b"Secret message";
    let encrypted1 = enc1.encrypt(plaintext).unwrap();
    let encrypted2 = enc2.encrypt(plaintext).unwrap();

    // Different keys = completely different ciphertexts
    assert_ne!(encrypted1.ciphertext, encrypted2.ciphertext);

    // Each can only decrypt its own
    assert!(enc1.decrypt(&encrypted1).is_ok());
    assert!(enc2.decrypt(&encrypted2).is_ok());

    // Cross-decryption fails
    assert!(enc1.decrypt(&encrypted2).is_err());
    assert!(enc2.decrypt(&encrypted1).is_err());
}

#[test]
fn test_counter_increments() {
    let shared_secret = [99u8; KEY_SIZE];
    let mut encryptor = TripleLayerEncryption::new(&shared_secret).unwrap();

    assert_eq!(encryptor.get_counter(), 0);

    let plaintext = b"Message 1";
    let msg1 = encryptor.encrypt(plaintext).unwrap();
    assert_eq!(msg1.counter, 1);

    let msg2 = encryptor.encrypt(plaintext).unwrap();
    assert_eq!(msg2.counter, 2);

    let msg3 = encryptor.encrypt(plaintext).unwrap();
    assert_eq!(msg3.counter, 3);
}

#[test]
fn test_empty_message_rejected() {
    let shared_secret = [0u8; KEY_SIZE];
    let mut encryptor = TripleLayerEncryption::new(&shared_secret).unwrap();

    let result = encryptor.encrypt(&[]);
    assert!(result.is_err());
}

#[test]
fn test_oversized_message_rejected() {
    let shared_secret = [0u8; KEY_SIZE];
    let mut encryptor = TripleLayerEncryption::new(&shared_secret).unwrap();

    let huge_message = vec![0u8; MAX_MESSAGE_SIZE + 1];
    let result = encryptor.encrypt(&huge_message);
    assert!(result.is_err());
}

#[test]
fn round_trip_hello_world() {
    let shared_secret = [0x2Au8; KEY_SIZE];
    let mut encryptor = TripleLayerEncryption::new(&shared_secret).unwrap();

    let plaintext = b"Hello, World!";
    let envelope = encryptor.encrypt(plaintext).unwrap();
    assert_eq!(envelope.counter, 1);
    assert_eq!(envelope.version, PROTOCOL_VERSION);
    assert_eq!(envelope.ciphertext.len(), plaintext.len() + 48);

    let decrypted = encryptor.decrypt(&envelope).unwrap();
    assert_eq!(decrypted, plaintext.to_vec());
}

#[test]
fn empty_and_oversize_yield_encryption_error() {
    let shared_secret = [7u8; KEY_SIZE];
    let mut encryptor = TripleLayerEncryption::new(&shared_secret).unwrap();

    match encryptor.encrypt(&[]) {
        Err(CryptoError::EncryptionError(_)) => {}
        other => panic!("expected EncryptionError, got {:?}", other.is_ok()),
    }
    let huge = vec![1u8; MAX_MESSAGE_SIZE + 1];
    match encryptor.encrypt(&huge) {
        Err(CryptoError::EncryptionError(_)) => {}
        other => panic!("expected EncryptionError, got {:?}", other.is_ok()),
    }
}

#[test]
fn freshness_distinct_envelopes() {
    let shared_secret = [5u8; KEY_SIZE];
    let mut encryptor = TripleLayerEncryption::new(&shared_secret).unwrap();

    let plaintext = b"same plaintext";
    let env1 = encryptor.encrypt(plaintext).unwrap();
    let env2 = encryptor.encrypt(plaintext).unwrap();

    assert_ne!(env1.ciphertext, env2.ciphertext);
    assert_ne!(env1.layer1_nonce, env2.layer1_nonce);
    assert_ne!(env1.layer2_nonce, env2.layer2_nonce);
    assert_ne!(env1.layer3_nonce, env2.layer3_nonce);
    assert_ne!(env1.message_id, env2.message_id);
}

#[test]
fn bit_flip_anywhere_rejected() {
    let shared_secret = [11u8; KEY_SIZE];
    let mut encryptor = TripleLayerEncryption::new(&shared_secret).unwrap();

    let plaintext = b"integrity matters";
    let envelope = encryptor.encrypt(plaintext).unwrap();

    // flip every bit of the ciphertext, one at a time
    for byte in 0..envelope.ciphertext.len() {
        for bit in 0..8 {
            let mut tampered = envelope.clone();
            tampered.ciphertext[byte] ^= 1 << bit;
            assert!(encryptor.decrypt(&tampered).is_err());
        }
    }
    // flip one bit in each nonce
    let mut tampered = envelope.clone();
    tampered.layer1_nonce[0] ^= 1;
    assert!(encryptor.decrypt(&tampered).is_err());
    let mut tampered = envelope.clone();
    tampered.layer2_nonce[5] ^= 0x80;
    assert!(encryptor.decrypt(&tampered).is_err());
    let mut tampered = envelope.clone();
    tampered.layer3_nonce[11] ^= 0x10;
    assert!(encryptor.decrypt(&tampered).is_err());
    // flip the version byte
    let mut tampered = envelope.clone();
    tampered.version ^= 1;
    match encryptor.decrypt(&tampered) {
        Err(CryptoError::DecryptionError(_)) => {}
        other => panic!("expected DecryptionError, got {:?}", other.is_ok()),
    }
}

#[test]
fn counter_survives_decrypt_and_resets() {
    let shared_secret = [3u8; KEY_SIZE];
    let mut encryptor = TripleLayerEncryption::new(&shared_secret).unwrap();

    let env = encryptor.encrypt(b"one").unwrap();
    assert_eq!(encryptor.get_counter(), 1);
    encryptor.decrypt(&env).unwrap();
    assert_eq!(encryptor.get_counter(), 1);
    encryptor.reset_counter();
    assert_eq!(encryptor.get_counter(), 0);
}
