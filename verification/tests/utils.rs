use chakchat_core::utils::{
    constant_time_compare, derive_key_from_password, hash_sha256, hash_sha512, hmac_sha256,
    hmac_sha512, random_bytes, random_array, secure_wipe,
};

#[test]
fn test_hash_sha256() {
    let data = b"Hello, ChakChat!";
    let hash = hash_sha256(data);
    assert_eq!(hash.len(), 32);

    // Same input = same hash
    let hash2 = hash_sha256(data);
    assert_eq!(hash, hash2);

    // Different input = different hash
    let hash3 = hash_sha256(b"Different data");
    assert_ne!(hash, hash3);
}

#[test]
fn test_hash_sha512() {
    let data = b"Hello, ChakChat!";
    let hash = hash_sha512(data);
    assert_eq!(hash.len(), 64);
}

#[test]
fn test_derive_key_from_password() {
    let password = b"MySecurePassword123!";
    let salt = [42u8; 32];

    let key1 = derive_key_from_password(password, &salt).unwrap();
    assert_eq!(key1.len(), 32);

    // Same password & salt = same key
    let key2 = derive_key_from_password(password, &salt).unwrap();
    assert_eq!(key1, key2);

    // Different password = different key
    let key3 = derive_key_from_password(b"DifferentPassword", &salt).unwrap();
    assert_ne!(key1, key3);
}

#[test]
fn test_random_bytes() {
    let bytes1 = random_bytes(32).unwrap();
    let bytes2 = random_bytes(32).unwrap();

    assert_eq!(bytes1.len(), 32);
    assert_eq!(bytes2.len(), 32);

    // Random bytes should be different
    assert_ne!(bytes1, bytes2);
}

#[test]
fn test_constant_time_compare() {
    let a = b"secret";
    let b = b"secret";
    let c = b"differ";

    assert!(constant_time_compare(a, b));
    assert!(!constant_time_compare(a, c));
    assert!(!constant_time_compare(a, b"short"));
}

#[test]
fn test_hmac_sha256() {
    let key = b"key";
    let data = b"data";

    let hmac1 = hmac_sha256(key, data);
    assert_eq!(hmac1.len(), 32);

    // Same key & data = same HMAC
    let hmac2 = hmac_sha256(key, data);
    assert_eq!(hmac1, hmac2);

    // Different key = different HMAC
    let hmac3 = hmac_sha256(b"other_key", data);
    assert_ne!(hmac1, hmac3);
}

#[test]
fn test_secure_wipe() {
    let mut buffer = vec![0xDEu8; 1024];
    let original = buffer.clone();

    secure_wipe(&mut buffer);

    // Buffer should be modified
    assert_ne!(buffer, original);
}

#[test]
fn sha256_known_vector() {
    // SHA-256("abc"), FIPS 180-2 appendix B.1
    let digest = hash_sha256(b"abc");
    let expected: [u8; 32] = [
        0xba, 0x78, 0x16, 0xbf, 0x8f, 0x01, 0xcf, 0xea, 0x41, 0x41, 0x40, 0xde, 0x5d, 0xae,
        0x22, 0x23, 0xb0, 0x03, 0x61, 0xa3, 0x96, 0x17, 0x7a, 0x9c, 0xb4, 0x10, 0xff, 0x61,
        0xf2, 0x00, 0x15, 0xad,
    ];
    assert_eq!(digest, expected);
}

#[test]
fn sha512_known_vector() {
    // SHA-512("abc"), FIPS 180-2 appendix C.1
    let digest = hash_sha512(b"abc");
    let expected: [u8; 64] = [
        0xdd, 0xaf, 0x35, 0xa1, 0x93, 0x61, 0x7a, 0xba, 0xcc, 0x41, 0x73, 0x49, 0xae, 0x20,
        0x41, 0x31, 0x12, 0xe6, 0xfa, 0x4e, 0x89, 0xa9, 0x7e, 0xa2, 0x0a, 0x9e, 0xee, 0xe6,
        0x4b, 0x55, 0xd3, 0x9a, 0x21, 0x92, 0x99, 0x2a, 0x27, 0x4f, 0xc1, 0xa8, 0x36, 0xba,
        0x3c, 0x23, 0xa3, 0xfe, 0xeb, 0xbd, 0x45, 0x4d, 0x44, 0x23, 0x64, 0x3c, 0xe8, 0x0e,
        0x2a, 0x9a, 0xc9, 0x4f, 0xa5, 0x4c, 0xa4, 0x9f,
    ];
    assert_eq!(digest, expected);
}

#[test]
fn hmac_sha256_known_vector() {
    // RFC 4231, test case 2: key "Jefe", data "what do ya want for nothing?"
    let tag = hmac_sha256(b"Jefe", b"what do ya want for nothing?");
    let expected: [u8; 32] = [
        0x5b, 0xdc, 0xc1, 0x46, 0xbf, 0x60, 0x75, 0x4e, 0x6a, 0x04, 0x24, 0x26, 0x08, 0x95,
        0x75, 0xc7, 0x5a, 0x00, 0x3f, 0x08, 0x9d, 0x27, 0x39, 0x83, 0x9d, 0xec, 0x58, 0xb9,
        0x64, 0xec, 0x38, 0x43,
    ];
    assert_eq!(tag, expected);
}

#[test]
fn hmac_sha512_basics() {
    let tag1 = hmac_sha512(b"key", b"data");
    assert_eq!(tag1.len(), 64);
    let tag2 = hmac_sha512(b"key", b"data");
    assert_eq!(tag1, tag2);
    let tag3 = hmac_sha512(b"key2", b"data");
    assert_ne!(tag1, tag3);
    let tag4 = hmac_sha512(b"key", b"data2");
    assert_ne!(tag1, tag4);
}

#[test]
fn random_array_draws_fresh_values() {
    let a: [u8; 32] = random_array().unwrap();
    let b: [u8; 32] = random_array().unwrap();
    assert_ne!(a, b);
}

#[test]
fn secure_wipe_keeps_length() {
    let mut buffer = vec![0x55u8; 77];
    secure_wipe(&mut buffer);
    assert_eq!(buffer.len(), 77);
    let mut empty: Vec<u8> = Vec::new();
    secure_wipe(&mut empty);
    assert_eq!(empty.len(), 0);
}
