use chakchat_core::post_quantum::{
    HybridKeyAgreement, PostQuantumKeyPair, KYBER_CT_SIZE, KYBER_DK_SIZE, KYBER_EK_SIZE,
    KYBER_SS_SIZE,
};
use chakchat_core::CryptoError;

#[test]
fn test_kyber_keypair_generation() {
    let keypair = PostQuantumKeyPair::generate().unwrap();
    assert_eq!(keypair.public_key_bytes().len(), KYBER_EK_SIZE);
    assert_eq!(keypair.secret_key_bytes().len(), KYBER_DK_SIZE);
}

#[test]
fn test_kyber_encapsulate_decapsulate() {
    let keypair = PostQuantumKeyPair::generate().unwrap();

    // Encapsulate (sender side)
    let (ss1, ct) = PostQuantumKeyPair::encapsulate(keypair.public_key_bytes()).unwrap();

    // Decapsulate (recipient side)
    let ss2 = keypair.decapsulate(&ct).unwrap();

    // Both sides get the same secret
    assert_eq!(ss1, ss2);
    assert_eq!(ss1.len(), KYBER_SS_SIZE);
}

#[test]
fn test_hybrid_key_agreement() {
    let classical = [42u8; 32];
    let quantum = [13u8; 32];

    let hybrid = HybridKeyAgreement::new(classical, quantum);

    assert_eq!(hybrid.classical_secret, classical);
    assert_eq!(hybrid.quantum_secret, quantum);
    assert_eq!(hybrid.hybrid_secret.len(), 64);

    let combined = hybrid.combined_secret().unwrap();
    assert_eq!(combined.len(), 32);
}

#[test]
fn test_different_kyber_keys_different_secrets() {
    let kp1 = PostQuantumKeyPair::generate().unwrap();
    let kp2 = PostQuantumKeyPair::generate().unwrap();

    let (ss1, ct1) = PostQuantumKeyPair::encapsulate(kp1.public_key_bytes()).unwrap();
    let (ss2, ct2) = PostQuantumKeyPair::encapsulate(kp2.public_key_bytes()).unwrap();

    assert_ne!(ss1, ss2);
    assert_ne!(ct1, ct2);
}

#[test]
fn test_decapsulate_wrong_ciphertext_fails() {
    let keypair = PostQuantumKeyPair::generate().unwrap();

    // Create wrong ciphertext
    let wrong_ct = vec![0u8; KYBER_CT_SIZE];

    // Decapsulation should fail or produce different secret
    // (Note: Kyber doesn't fail on invalid CT, just produces wrong secret)
    let result = keypair.decapsulate(&wrong_ct);
    assert!(result.is_ok()); // Kyber doesn't reject, just wrong secret
}

#[test]
fn wrong_ciphertext_yields_wrong_secret() {
    let keypair = PostQuantumKeyPair::generate().unwrap();
    let (ss, ct) = PostQuantumKeyPair::encapsulate(keypair.public_key_bytes()).unwrap();

    let wrong_ct = vec![0u8; KYBER_CT_SIZE];
    let ss_wrong = keypair.decapsulate(&wrong_ct).unwrap();
    let ss_right = keypair.decapsulate(&ct).unwrap();

    assert_eq!(ss_right, ss);
    assert_ne!(ss_wrong, ss);
}

#[test]
fn wrong_key_sizes_give_invalid_key_error() {
    let keypair = PostQuantumKeyPair::generate().unwrap();

    match PostQuantumKeyPair::encapsulate(&[0u8; 10]) {
        Err(CryptoError::InvalidKey(_)) => {}
        other => panic!("expected InvalidKey, got {:?}", other.is_ok()),
    }
    match keypair.decapsulate(&[0u8; 10]) {
        Err(CryptoError::InvalidKey(_)) => {}
        other => panic!("expected InvalidKey, got {:?}", other.is_ok()),
    }
}

#[test]
fn hybrid_combination_is_nondegenerate() {
    let classical = [42u8; 32];
    let quantum = [13u8; 32];
    let hybrid = HybridKeyAgreement::new(classical, quantum);
    let combined = hybrid.combined_secret().unwrap();

    // the combined secret differs from both inputs
    assert_ne!(combined, classical);
    assert_ne!(combined, quantum);
    // the concatenation is classical first, quantum second
    assert_eq!(&hybrid.hybrid_secret[..32], &classical);
    assert_eq!(&hybrid.hybrid_secret[32..], &quantum);

    // changing either input changes the combined secret
    let c2 = HybridKeyAgreement::new([43u8; 32], quantum).combined_secret().unwrap();
    let q2 = HybridKeyAgreement::new(classical, [14u8; 32]).combined_secret().unwrap();
    assert_ne!(c2, combined);
    assert_ne!(q2, combined);

    // same inputs give the same combined secret
    let again = HybridKeyAgreement::new(classical, quantum).combined_secret().unwrap();
    assert_eq!(again, combined);
}

#[test]
fn kem_seeds_the_cascade_engine() {
    // end to end: encapsulated secret on both sides seeds equal engines
    let keypair = PostQuantumKeyPair::generate().unwrap();
    let (ss_sender, ct) = PostQuantumKeyPair::encapsulate(keypair.public_key_bytes()).unwrap();
    let ss_receiver = keypair.decapsulate(&ct).unwrap();

    let classical = [9u8; 32];
    let sender_secret = HybridKeyAgreement::new(classical, ss_sender).combined_secret().unwrap();
    let receiver_secret =
        HybridKeyAgreement::new(classical, ss_receiver).combined_secret().unwrap();
    assert_eq!(sender_secret, receiver_secret);

    let mut sender =
        chakchat_core::encryption::TripleLayerEncryption::new(&sender_secret).unwrap();
    let mut receiver =
        chakchat_core::encryption::TripleLayerEncryption::new(&receiver_secret).unwrap();
    let env = sender.encrypt(b"hybrid session").unwrap();
    assert_eq!(receiver.decrypt(&env).unwrap(), b"hybrid session".to_vec());
}
