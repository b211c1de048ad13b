//! The triple-cascade authenticated-encryption engine.
//!
//! One 32-byte session secret is expanded into three independent
//! subkeys; each message is wrapped by XChaCha20-Poly1305, then
//! AES-256-GCM, then ChaCha20-Poly1305, under fresh random nonces,
//! and stamped with a monotonically increasing counter.

use vstd::prelude::*;
use crate::CryptoError;
use crate::CryptoResult;
use crate::PROTOCOL_VERSION;
use crate::cipher::aes256gcm_open;
use crate::cipher::aes256gcm_seal;
use crate::cipher::aes256gcm_unseal;
use crate::cipher::chacha20poly1305_open;
use crate::cipher::chacha20poly1305_seal;
use crate::cipher::chacha20poly1305_unseal;
use crate::cipher::xchacha20poly1305_open;
use crate::cipher::xchacha20poly1305_seal;
use crate::cipher::xchacha20poly1305_unseal;
use crate::kdf::hkdf_sha256_expand32;
use crate::kdf::hkdf_expand32;

verus! {

/// 256-bit key size (32 bytes).
pub const KEY_SIZE: usize = 32;

/// XChaCha20 nonce size (24 bytes).
pub const XCHACHA_NONCE_SIZE: usize = 24;

/// AES-GCM and ChaCha20 (IETF) nonce size (12 bytes).
pub const AES_NONCE_SIZE: usize = 12;

/// AEAD tag size (16 bytes); each of the three layers appends one.
pub const TAG_SIZE: usize = 16;

/// Maximum plaintext size: 100 MiB.
pub const MAX_MESSAGE_SIZE: usize = 100 * 1024 * 1024;

/// Triple-layer encryption state: three subkeys and a message counter.
pub struct TripleLayerEncryption {
    /// Layer 1: XChaCha20-Poly1305 key.
    layer1_key: [u8; KEY_SIZE],
    /// Layer 2: AES-256-GCM key.
    layer2_key: [u8; KEY_SIZE],
    /// Layer 3: ChaCha20-Poly1305 key.
    layer3_key: [u8; KEY_SIZE],
    /// Number of successful encrypt calls on this state.
    message_counter: u64,
}

/// The envelope of one encrypted message.
#[derive(Debug, Clone)]
pub struct EncryptedMessage {
    /// Protocol version.
    pub version: u8,
    /// Triple-layer ciphertext: plaintext length plus three tags.
    pub ciphertext: Vec<u8>,
    /// Layer 1 (XChaCha20) nonce.
    pub layer1_nonce: [u8; XCHACHA_NONCE_SIZE],
    /// Layer 2 (AES-GCM) nonce.
    pub layer2_nonce: [u8; AES_NONCE_SIZE],
    /// Layer 3 (ChaCha20) nonce.
    pub layer3_nonce: [u8; AES_NONCE_SIZE],
    /// Counter stamped by the sender; metadata only on decryption.
    pub counter: u64,
    /// Random message ID.
    pub message_id: u64,
    /// Wall-clock timestamp in Unix milliseconds; metadata only.
    pub timestamp: i64,
}

/// What peeling the three layers in outer-to-inner order yields for a
/// given subkey triple, nonce triple and ciphertext.
pub open spec fn triple_open(
    k1: Seq<u8>, k2: Seq<u8>, k3: Seq<u8>,
    n1: Seq<u8>, n2: Seq<u8>, n3: Seq<u8>,
    ct: Seq<u8>,
) -> Option<Seq<u8>> {
    match chacha20poly1305_open(k3, n3, ct) {
        Option::None => Option::None,
        Option::Some(m2) => match aes256gcm_open(k2, n2, m2) {
            Option::None => Option::None,
            Option::Some(m1) => xchacha20poly1305_open(k1, n1, m1),
        },
    }
}

impl TripleLayerEncryption {
    /// True when the three subkeys are the HKDF expansion of `secret`
    /// under the three domain-separation labels.
    pub closed spec fn seeded_with(self, secret: Seq<u8>) -> bool {
        &&& self.layer1_key@ == hkdf_sha256_expand32(secret, "chakchat_encryption_key_1"@)
        &&& self.layer2_key@ == hkdf_sha256_expand32(secret, "chakchat_encryption_key_2"@)
        &&& self.layer3_key@ == hkdf_sha256_expand32(secret, "chakchat_encryption_key_3"@)
    }

    /// The message counter, as a spec value.
    pub closed spec fn counter(self) -> u64 {
        self.message_counter
    }

    /// True when every byte of the three subkeys is zero.
    pub closed spec fn keys_zeroed(self) -> bool {
        &&& forall|j: int| 0 <= j < KEY_SIZE ==> self.layer1_key@[j] == 0
        &&& forall|j: int| 0 <= j < KEY_SIZE ==> self.layer2_key@[j] == 0
        &&& forall|j: int| 0 <= j < KEY_SIZE ==> self.layer3_key@[j] == 0
    }

    /// True when two engines hold the same subkey triple.
    pub closed spec fn same_keys(self, other: Self) -> bool {
        &&& self.layer1_key == other.layer1_key
        &&& self.layer2_key == other.layer2_key
        &&& self.layer3_key == other.layer3_key
    }

    /// What decryption of `msg` under this state's subkeys returns:
    /// the plaintext, or `None` for a wrong version, an empty
    /// ciphertext, or a failure at any layer.
    pub closed spec fn decrypt_spec(self, msg: EncryptedMessage) -> Option<Seq<u8>> {
        if msg.version != PROTOCOL_VERSION || msg.ciphertext@.len() == 0 {
            Option::None
        } else {
            triple_open(
                self.layer1_key@, self.layer2_key@, self.layer3_key@,
                msg.layer1_nonce@, msg.layer2_nonce@, msg.layer3_nonce@,
                msg.ciphertext@,
            )
        }
    }

    /// Create a new engine from a 32-byte session secret: derive the
    /// three subkeys and start the counter at zero.
    pub fn new(shared_secret: &[u8; KEY_SIZE]) -> (r: CryptoResult<Self>)
        ensures
            r is Ok,
            r.unwrap().seeded_with(shared_secret@),
            r.unwrap().counter() == 0,
    {
        let (key1, key2, key3) = match Self::derive_triple_keys(shared_secret) {
            Ok(keys) => keys,
            Err(e) => {
                return Err(e);
            },
        };
        Ok(TripleLayerEncryption {
            layer1_key: key1,
            layer2_key: key2,
            layer3_key: key3,
            message_counter: 0,
        })
    }

    /// Derive the three independent subkeys from the session secret by
    /// HKDF-SHA-256 with three distinct info labels.
    fn derive_triple_keys(shared_secret: &[u8; KEY_SIZE]) -> (r: CryptoResult<([u8; KEY_SIZE], [u8; KEY_SIZE], [u8; KEY_SIZE])>)
        ensures
            r is Ok,
            r.unwrap().0@ == hkdf_sha256_expand32(shared_secret@, "chakchat_encryption_key_1"@),
            r.unwrap().1@ == hkdf_sha256_expand32(shared_secret@, "chakchat_encryption_key_2"@),
            r.unwrap().2@ == hkdf_sha256_expand32(shared_secret@, "chakchat_encryption_key_3"@),
    {
        let key1 = hkdf_expand32(shared_secret.as_slice(), "chakchat_encryption_key_1");
        let key2 = hkdf_expand32(shared_secret.as_slice(), "chakchat_encryption_key_2");
        let key3 = hkdf_expand32(shared_secret.as_slice(), "chakchat_encryption_key_3");
        Ok((key1, key2, key3))
    }

    /// Encrypt one message with all three layers under fresh random
    /// nonces, and stamp the next counter value.
    ///
    /// Succeeds exactly on plaintexts of 1 to 100 MiB while the
    /// counter has room; the resulting envelope decrypts back to the
    /// plaintext under the same subkeys.
    pub fn encrypt(&mut self, plaintext: &[u8]) -> (r: CryptoResult<EncryptedMessage>)
        ensures
            final(self).same_keys(*old(self)),
            forall|secret: Seq<u8>| old(self).seeded_with(secret) ==> final(self).seeded_with(secret),
            match r {
                Ok(env) => {
                    &&& 1 <= plaintext@.len() <= MAX_MESSAGE_SIZE
                    &&& old(self).counter() < u64::MAX
                    &&& final(self).counter() == old(self).counter() + 1
                    &&& env.version == PROTOCOL_VERSION
                    &&& env.counter == final(self).counter()
                    &&& env.ciphertext@.len() == plaintext@.len() + 3 * TAG_SIZE
                    &&& final(self).decrypt_spec(env) == Some(plaintext@)
                },
                Err(e) => {
                    &&& *final(self) == *old(self)
                    &&& (plaintext@.len() == 0 || plaintext@.len() > MAX_MESSAGE_SIZE
                        || old(self).counter() == u64::MAX)
                    &&& e is EncryptionError
                },
            },
    {
        if plaintext.len() == 0 {
            return Err(CryptoError::EncryptionError("Cannot encrypt empty message".to_string()));
        }
        if plaintext.len() > MAX_MESSAGE_SIZE {
            return Err(CryptoError::EncryptionError("Message exceeds maximum size".to_string()));
        }
        if self.message_counter == u64::MAX {
            return Err(CryptoError::EncryptionError("Counter overflow".to_string()));
        }

        let layer1_nonce = match crate::utils::random_array::<XCHACHA_NONCE_SIZE>() {
            Ok(n) => n,
            Err(_) => {
                return Err(CryptoError::EncryptionError("Random generation failed".to_string()));
            },
        };
        let layer2_nonce = match crate::utils::random_array::<AES_NONCE_SIZE>() {
            Ok(n) => n,
            Err(_) => {
                return Err(CryptoError::EncryptionError("Random generation failed".to_string()));
            },
        };
        let layer3_nonce = match crate::utils::random_array::<AES_NONCE_SIZE>() {
            Ok(n) => n,
            Err(_) => {
                return Err(CryptoError::EncryptionError("Random generation failed".to_string()));
            },
        };

        let intermediate1 = xchacha20poly1305_seal(&self.layer1_key, &layer1_nonce, plaintext);
        let intermediate2 = aes256gcm_seal(&self.layer2_key, &layer2_nonce, intermediate1.as_slice());
        let ciphertext = chacha20poly1305_seal(&self.layer3_key, &layer3_nonce, intermediate2.as_slice());

        self.message_counter = self.message_counter + 1;
        let message_id = crate::utils::random_u64();
        let timestamp = crate::clock::now_timestamp_millis();

        Ok(EncryptedMessage {
            version: PROTOCOL_VERSION,
            ciphertext,
            layer1_nonce,
            layer2_nonce,
            layer3_nonce,
            counter: self.message_counter,
            message_id,
            timestamp,
        })
    }

    /// Decrypt an envelope by peeling the three layers outer to inner.
    ///
    /// Succeeds exactly when the version matches, the ciphertext is
    /// non-empty, and every layer's tag verifies under this state's
    /// subkeys and the envelope's nonces.
    pub fn decrypt(&mut self, message: &EncryptedMessage) -> (r: CryptoResult<Vec<u8>>)
        ensures
            *final(self) == *old(self),
            match r {
                Ok(p) => old(self).decrypt_spec(*message) == Some(p@),
                Err(e) => {
                    &&& old(self).decrypt_spec(*message) is None
                    &&& e is DecryptionError
                },
            },
    {
        if message.version != PROTOCOL_VERSION {
            return Err(CryptoError::DecryptionError("Invalid protocol version".to_string()));
        }
        if message.ciphertext.len() == 0 {
            return Err(CryptoError::DecryptionError("Empty ciphertext".to_string()));
        }

        let intermediate2 = match chacha20poly1305_unseal(
            &self.layer3_key, &message.layer3_nonce, message.ciphertext.as_slice(),
        ) {
            Some(m) => m,
            None => {
                return Err(CryptoError::DecryptionError("Layer 3 failed".to_string()));
            },
        };
        let intermediate1 = match aes256gcm_unseal(
            &self.layer2_key, &message.layer2_nonce, intermediate2.as_slice(),
        ) {
            Some(m) => m,
            None => {
                return Err(CryptoError::DecryptionError("Layer 2 failed".to_string()));
            },
        };
        let plaintext = match xchacha20poly1305_unseal(
            &self.layer1_key, &message.layer1_nonce, intermediate1.as_slice(),
        ) {
            Some(m) => m,
            None => {
                return Err(CryptoError::DecryptionError("Layer 1 failed".to_string()));
            },
        };
        Ok(plaintext)
    }

    /// Current message counter.
    pub fn get_counter(&self) -> (r: u64)
        ensures
            r == self.counter(),
    {
        self.message_counter
    }

    /// Reset the counter to zero; only for starting a new session.
    pub fn reset_counter(&mut self)
        ensures
            final(self).counter() == 0,
            final(self).same_keys(*old(self)),
            forall|secret: Seq<u8>| old(self).seeded_with(secret) ==> final(self).seeded_with(secret),
    {
        self.message_counter = 0;
    }
}

impl Drop for TripleLayerEncryption {
    /// Overwrite the three subkeys with zeros when the state is
    /// destroyed; the counter need not be wiped.
    fn drop(&mut self)
        ensures
            final(self).keys_zeroed(),
        opens_invariants none
        no_unwind
    {
        let mut i: usize = 0;
        while i < KEY_SIZE
            invariant
                i <= KEY_SIZE,
                forall|j: int| 0 <= j < i ==> self.layer1_key@[j] == 0,
                forall|j: int| 0 <= j < i ==> self.layer2_key@[j] == 0,
                forall|j: int| 0 <= j < i ==> self.layer3_key@[j] == 0,
            decreases KEY_SIZE - i,
        {
            self.layer1_key[i] = 0;
            self.layer2_key[i] = 0;
            self.layer3_key[i] = 0;
            i = i + 1;
        }
    }
}

/// Round-trip law: an envelope whose ciphertext opens to `p` under a
/// subkey triple is decrypted to `p` by every engine holding that
/// triple; in particular, two fresh engines seeded by the same secret
/// decrypt each other's envelopes.
pub proof fn lemma_round_trip(
    sender: TripleLayerEncryption,
    receiver: TripleLayerEncryption,
    env: EncryptedMessage,
    p: Seq<u8>,
)
    requires
        sender.same_keys(receiver) || (exists|secret: Seq<u8>|
            sender.seeded_with(secret) && receiver.seeded_with(secret)),
        sender.decrypt_spec(env) == Some(p),
    ensures
        receiver.decrypt_spec(env) == Some(p),
{
}

} // verus!
