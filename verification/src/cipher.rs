//! Trusted facade over the three AEAD constructions.
//!
//! Each AEAD is deterministic in (key, nonce, message): what sealing
//! produces and what opening returns are functions of those inputs
//! alone. Opening is named by an uninterpreted spec function per
//! algorithm; sealing is specified as producing a ciphertext that the
//! same key and nonce open back to the plaintext, with a 16-byte
//! postfix tag.

use vstd::prelude::*;
use aes_gcm::aead::Aead;
use aes_gcm::KeyInit;
use aes_gcm::Aes256Gcm;
use chacha20poly1305::ChaCha20Poly1305;
use chacha20poly1305::XChaCha20Poly1305;

verus! {

/// Largest message any layer is asked to seal; far below the inner
/// limits of the three AEAD implementations (at least 2^36 bytes).
pub const SEAL_MAX: usize = 0x1000_0000;

/// What XChaCha20-Poly1305 decryption returns for a key, nonce and
/// ciphertext-with-tag: the plaintext, or `None` on a failed tag.
pub uninterp spec fn xchacha20poly1305_open(key: Seq<u8>, nonce: Seq<u8>, ct: Seq<u8>) -> Option<Seq<u8>>;

/// What AES-256-GCM decryption returns for a key, nonce and
/// ciphertext-with-tag.
pub uninterp spec fn aes256gcm_open(key: Seq<u8>, nonce: Seq<u8>, ct: Seq<u8>) -> Option<Seq<u8>>;

/// What ChaCha20-Poly1305 (IETF) decryption returns for a key, nonce
/// and ciphertext-with-tag.
pub uninterp spec fn chacha20poly1305_open(key: Seq<u8>, nonce: Seq<u8>, ct: Seq<u8>) -> Option<Seq<u8>>;

/// Relies on chacha20poly1305::XChaCha20Poly1305::encrypt: appends a
/// 16-byte tag, and decrypting with the same key and nonce returns the
/// plaintext.
#[verifier::external_body]
pub(crate) fn xchacha20poly1305_seal(key: &[u8; 32], nonce: &[u8; 24], pt: &[u8]) -> (r: Vec<u8>)
    requires
        pt@.len() <= SEAL_MAX,
    ensures
        r@.len() == pt@.len() + 16,
        xchacha20poly1305_open(key@, nonce@, r@) == Some(pt@),
{
    let cipher = XChaCha20Poly1305::new(key.into());
    cipher.encrypt(chacha20poly1305::XNonce::from_slice(nonce), pt).unwrap()
}

/// Relies on chacha20poly1305::XChaCha20Poly1305::decrypt: verifies the
/// tag and inverts encryption; a pure function of key, nonce and
/// ciphertext.
#[verifier::external_body]
pub(crate) fn xchacha20poly1305_unseal(key: &[u8; 32], nonce: &[u8; 24], ct: &[u8]) -> (r: Option<Vec<u8>>)
    ensures
        match r {
            Some(p) => xchacha20poly1305_open(key@, nonce@, ct@) == Some(p@)
                && ct@.len() == p@.len() + 16,
            None => xchacha20poly1305_open(key@, nonce@, ct@) is None,
        },
{
    let cipher = XChaCha20Poly1305::new(key.into());
    cipher.decrypt(chacha20poly1305::XNonce::from_slice(nonce), ct).ok()
}

/// Relies on aes_gcm::Aes256Gcm::encrypt: appends a 16-byte tag, and
/// decrypting with the same key and nonce returns the plaintext.
#[verifier::external_body]
pub(crate) fn aes256gcm_seal(key: &[u8; 32], nonce: &[u8; 12], pt: &[u8]) -> (r: Vec<u8>)
    requires
        pt@.len() <= SEAL_MAX,
    ensures
        r@.len() == pt@.len() + 16,
        aes256gcm_open(key@, nonce@, r@) == Some(pt@),
{
    let cipher = Aes256Gcm::new(key.into());
    cipher.encrypt(aes_gcm::Nonce::from_slice(nonce), pt).unwrap()
}

/// Relies on aes_gcm::Aes256Gcm::decrypt: verifies the tag and inverts
/// encryption; a pure function of key, nonce and ciphertext.
#[verifier::external_body]
pub(crate) fn aes256gcm_unseal(key: &[u8; 32], nonce: &[u8; 12], ct: &[u8]) -> (r: Option<Vec<u8>>)
    ensures
        match r {
            Some(p) => aes256gcm_open(key@, nonce@, ct@) == Some(p@)
                && ct@.len() == p@.len() + 16,
            None => aes256gcm_open(key@, nonce@, ct@) is None,
        },
{
    let cipher = Aes256Gcm::new(key.into());
    cipher.decrypt(aes_gcm::Nonce::from_slice(nonce), ct).ok()
}

/// Relies on chacha20poly1305::ChaCha20Poly1305::encrypt: appends a
/// 16-byte tag, and decrypting with the same key and nonce returns the
/// plaintext.
#[verifier::external_body]
pub(crate) fn chacha20poly1305_seal(key: &[u8; 32], nonce: &[u8; 12], pt: &[u8]) -> (r: Vec<u8>)
    requires
        pt@.len() <= SEAL_MAX,
    ensures
        r@.len() == pt@.len() + 16,
        chacha20poly1305_open(key@, nonce@, r@) == Some(pt@),
{
    let cipher = ChaCha20Poly1305::new(key.into());
    cipher.encrypt(chacha20poly1305::Nonce::from_slice(nonce), pt).unwrap()
}

/// Relies on chacha20poly1305::ChaCha20Poly1305::decrypt: verifies the
/// tag and inverts encryption; a pure function of key, nonce and
/// ciphertext.
#[verifier::external_body]
pub(crate) fn chacha20poly1305_unseal(key: &[u8; 32], nonce: &[u8; 12], ct: &[u8]) -> (r: Option<Vec<u8>>)
    ensures
        match r {
            Some(p) => chacha20poly1305_open(key@, nonce@, ct@) == Some(p@)
                && ct@.len() == p@.len() + 16,
            None => chacha20poly1305_open(key@, nonce@, ct@) is None,
        },
{
    let cipher = ChaCha20Poly1305::new(key.into());
    cipher.decrypt(chacha20poly1305::Nonce::from_slice(nonce), ct).ok()
}

} // verus!
