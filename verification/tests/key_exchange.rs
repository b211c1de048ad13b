use chakchat_core::key_exchange::{
    verify_signature, EphemeralDH, KeyPair, CURVE25519_KEY_SIZE,
};
use chakchat_core::CryptoError;

#[test]
fn test_keypair_generation() {
    let keypair = KeyPair::generate().unwrap();
    assert_eq!(keypair.get_public_key().len(), CURVE25519_KEY_SIZE);
    assert_eq!(keypair.get_verifying_key().len(), 32);
}

#[test]
fn test_ecdh_shared_secret() {
    let keypair1 = KeyPair::generate().unwrap();
    let keypair2 = KeyPair::generate().unwrap();

    let secret1 = keypair1.compute_shared_secret(keypair2.get_public_key()).unwrap();
    let secret2 = keypair2.compute_shared_secret(keypair1.get_public_key()).unwrap();

    // Both sides compute the same shared secret
    assert_eq!(secret1, secret2);
}

#[test]
fn test_signing_and_verification() {
    let keypair = KeyPair::generate().unwrap();
    let data = b"Message to sign";

    let signature = keypair.sign(data).unwrap();
    let result = verify_signature(keypair.get_verifying_key(), data, &signature);

    assert!(result.is_ok());
}

#[test]
fn test_signature_verification_fails_on_tampered_data() {
    let keypair = KeyPair::generate().unwrap();
    let data = b"Original message";
    let tampered = b"Tampered message";

    let signature = keypair.sign(data).unwrap();
    let result = verify_signature(keypair.get_verifying_key(), tampered, &signature);

    assert!(result.is_err());
}

#[test]
fn test_ephemeral_dh() {
    let ephemeral1 = EphemeralDH::generate().unwrap();
    let ephemeral2 = EphemeralDH::generate().unwrap();

    let secret1 = ephemeral1.compute_shared_secret(ephemeral2.public_key());
    let secret2 = ephemeral2.compute_shared_secret(ephemeral1.public_key());

    assert_eq!(secret1, secret2);
}

#[test]
fn from_bytes_is_deterministic_and_nontrivial() {
    let kp1 = KeyPair::from_bytes(&[1u8; 32], &[2u8; 32]).unwrap();
    let kp2 = KeyPair::from_bytes(&[1u8; 32], &[2u8; 32]).unwrap();
    let kp3 = KeyPair::from_bytes(&[3u8; 32], &[4u8; 32]).unwrap();

    // same seeds, same derived keys
    assert_eq!(kp1.get_public_key(), kp2.get_public_key());
    assert_eq!(kp1.get_verifying_key(), kp2.get_verifying_key());
    // different seeds, different derived keys
    assert_ne!(kp1.get_public_key(), kp3.get_public_key());
    assert_ne!(kp1.get_verifying_key(), kp3.get_verifying_key());
    // the public halves are not the seeds themselves
    assert_ne!(kp1.get_public_key(), &[1u8; 32]);
    assert_ne!(kp1.get_verifying_key(), &[2u8; 32]);
    // the stored private seed round-trips
    assert_eq!(kp1.get_private_key(), &[1u8; 32]);
}

#[test]
fn tampered_signature_gives_verification_failed_error() {
    let keypair = KeyPair::generate().unwrap();
    let data = b"data";
    let mut signature = keypair.sign(data).unwrap();
    signature[0] ^= 1;
    match verify_signature(keypair.get_verifying_key(), data, &signature) {
        Err(CryptoError::SignatureVerificationFailed) => {}
        other => panic!("expected SignatureVerificationFailed, got {:?}", other.is_ok()),
    }
}
