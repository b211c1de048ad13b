//! Cryptographic core of a peer-to-peer secure messenger.
//!
//! The crate combines a triple-cascade authenticated-encryption engine,
//! a hybrid classical/post-quantum key-agreement layer, long-term
//! identities with signatures, and an in-memory peer directory with a
//! distance-bucketed routing table.

use vstd::prelude::*;

pub mod cipher;
pub mod clock;
pub mod codec;
pub mod directory;
pub mod encryption;
pub mod kdf;
pub mod network;
pub mod key_exchange;
pub mod post_quantum;
pub mod routing;
pub mod utils;

verus! {

/// Current protocol version, stamped into every envelope.
pub const PROTOCOL_VERSION: u8 = 1;

/// Result type for cryptographic operations.
pub type CryptoResult<T> = Result<T, CryptoError>;

/// Cryptographic error taxonomy; the only kinds callers must handle.
#[derive(Debug, Clone)]
pub enum CryptoError {
    /// Encryption failed (empty input, oversize input, counter overflow).
    EncryptionError(String),
    /// Decryption failed (bad version, empty or forged ciphertext).
    DecryptionError(String),
    /// Key derivation failed.
    KeyDerivationError(String),
    /// A key had the wrong size or shape.
    InvalidKey(String),
    /// A nonce had the wrong size.
    InvalidNonce(String),
    /// An HMAC comparison failed.
    HmacVerificationFailed,
    /// A signature did not verify.
    SignatureVerificationFailed,
    /// The random source failed.
    RandomGenerationFailed,
    /// A value could not be serialized.
    SerializationError(String),
    /// Key agreement failed.
    KeyAgreementFailed(String),
}

} // verus!
