//! Long-term identity keypairs, Ed25519 signatures and X25519 key
//! agreement, plus ephemeral Diffie-Hellman for session setup.

use vstd::prelude::*;
use ed25519_dalek::Signer;
use crate::CryptoError;
use crate::CryptoResult;

verus! {

/// 32-byte Curve25519 key size.
pub const CURVE25519_KEY_SIZE: usize = 32;

/// 64-byte Ed25519 signature size.
pub const SIGNATURE_SIZE: usize = 64;

/// The X25519 public key determined by a 32-byte secret scalar seed.
pub uninterp spec fn x25519_public_of(secret: Seq<u8>) -> Seq<u8>;

/// The X25519 shared secret computed from one side's secret scalar
/// seed and the other side's public key bytes.
pub uninterp spec fn x25519_shared(secret: Seq<u8>, peer_public: Seq<u8>) -> Seq<u8>;

/// The Ed25519 verifying key determined by a 32-byte signing seed.
pub uninterp spec fn ed25519_verifying_key_of(seed: Seq<u8>) -> Seq<u8>;

/// The deterministic Ed25519 signature of a message under a seed.
pub uninterp spec fn ed25519_sign_bytes(seed: Seq<u8>, msg: Seq<u8>) -> Seq<u8>;

/// Whether strict Ed25519 verification accepts (key, message,
/// signature); a pure function of the three byte strings.
pub uninterp spec fn ed25519_verifies(vk: Seq<u8>, msg: Seq<u8>, sig: Seq<u8>) -> bool;

/// Relies on x25519_dalek::PublicKey::from(&StaticSecret): computes
/// the public key of a secret scalar, deterministically.
#[verifier::external_body]
fn x25519_public(secret: &[u8; 32]) -> (r: [u8; 32])
    ensures
        r@ == x25519_public_of(secret@),
{
    let sk = x25519_dalek::StaticSecret::from(*secret);
    *x25519_dalek::PublicKey::from(&sk).as_bytes()
}

/// Relies on x25519_dalek::StaticSecret::diffie_hellman: scalar
/// multiplication of the peer's point, deterministic in both inputs.
#[verifier::external_body]
fn x25519_diffie_hellman(secret: &[u8; 32], peer_public: &[u8; 32]) -> (r: [u8; 32])
    ensures
        r@ == x25519_shared(secret@, peer_public@),
{
    let sk = x25519_dalek::StaticSecret::from(*secret);
    let pk = x25519_dalek::PublicKey::from(*peer_public);
    *sk.diffie_hellman(&pk).as_bytes()
}

/// Relies on ed25519_dalek::SigningKey::verifying_key: derives the
/// public verifying key from a seed, deterministically.
#[verifier::external_body]
fn ed25519_verifying_key(seed: &[u8; 32]) -> (r: [u8; 32])
    ensures
        r@ == ed25519_verifying_key_of(seed@),
{
    let sk = ed25519_dalek::SigningKey::from_bytes(seed);
    sk.verifying_key().to_bytes()
}

/// Relies on ed25519_dalek::SigningKey::sign: the deterministic
/// Ed25519 signature; the scheme's correctness guarantees that strict
/// verification under the matching verifying key accepts it.
#[verifier::external_body]
fn ed25519_sign(seed: &[u8; 32], msg: &[u8]) -> (r: [u8; 64])
    ensures
        r@ == ed25519_sign_bytes(seed@, msg@),
        ed25519_verifies(ed25519_verifying_key_of(seed@), msg@, r@),
{
    let sk = ed25519_dalek::SigningKey::from_bytes(seed);
    sk.sign(msg).to_bytes()
}

/// Relies on ed25519_dalek::VerifyingKey::{from_bytes, verify_strict}:
/// strict verification is a pure function of key, message and
/// signature bytes; malformed key bytes never verify.
#[verifier::external_body]
fn ed25519_verify(vk: &[u8; 32], msg: &[u8], sig: &[u8; 64]) -> (r: bool)
    ensures
        r == ed25519_verifies(vk@, msg@, sig@),
{
    match ed25519_dalek::VerifyingKey::from_bytes(vk) {
        Ok(key) => key.verify_strict(msg, &ed25519_dalek::Signature::from_bytes(sig)).is_ok(),
        Err(_) => false,
    }
}

/// Long-term identity: an X25519 private/public pair and an Ed25519
/// signing/verifying pair, both derived from 32-byte seeds.
pub struct KeyPair {
    /// X25519 secret scalar seed (kept secret).
    private_key: [u8; CURVE25519_KEY_SIZE],
    /// X25519 public key.
    public_key: [u8; CURVE25519_KEY_SIZE],
    /// Ed25519 signing seed (kept secret).
    signing_key: [u8; CURVE25519_KEY_SIZE],
    /// Ed25519 verifying key.
    verifying_key: [u8; CURVE25519_KEY_SIZE],
}

impl KeyPair {
    /// The stored X25519 secret seed.
    pub closed spec fn spec_private_key(self) -> Seq<u8> {
        self.private_key@
    }

    /// The stored X25519 public key.
    pub closed spec fn spec_public_key(self) -> Seq<u8> {
        self.public_key@
    }

    /// The stored Ed25519 signing seed.
    pub closed spec fn spec_signing_key(self) -> Seq<u8> {
        self.signing_key@
    }

    /// The stored Ed25519 verifying key.
    pub closed spec fn spec_verifying_key(self) -> Seq<u8> {
        self.verifying_key@
    }

    /// Both public halves are derived from their stored seeds.
    #[verifier::type_invariant]
    spec fn consistent(self) -> bool {
        &&& self.public_key@ == x25519_public_of(self.private_key@)
        &&& self.verifying_key@ == ed25519_verifying_key_of(self.signing_key@)
    }

    /// Generate a new identity: one random 32-byte seed used as both
    /// the X25519 scalar seed and the Ed25519 signing seed.
    pub fn generate() -> (r: CryptoResult<Self>)
        ensures
            r is Ok,
            r.unwrap().spec_signing_key() == r.unwrap().spec_private_key(),
            r.unwrap().spec_public_key() == x25519_public_of(r.unwrap().spec_private_key()),
            r.unwrap().spec_verifying_key() == ed25519_verifying_key_of(r.unwrap().spec_signing_key()),
    {
        let seed = match crate::utils::random_array::<CURVE25519_KEY_SIZE>() {
            Ok(s) => s,
            Err(_) => {
                return Err(CryptoError::RandomGenerationFailed);
            },
        };
        let public_key = x25519_public(&seed);
        let verifying_key = ed25519_verifying_key(&seed);
        Ok(KeyPair { private_key: seed, public_key, signing_key: seed, verifying_key })
    }

    /// Rebuild an identity from its two stored seeds.
    pub fn from_bytes(private_key: &[u8; 32], signing_key: &[u8; 32]) -> (r: CryptoResult<Self>)
        ensures
            r is Ok,
            r.unwrap().spec_private_key() == private_key@,
            r.unwrap().spec_signing_key() == signing_key@,
            r.unwrap().spec_public_key() == x25519_public_of(private_key@),
            r.unwrap().spec_verifying_key() == ed25519_verifying_key_of(signing_key@),
    {
        let public_key = x25519_public(private_key);
        let verifying_key = ed25519_verifying_key(signing_key);
        Ok(KeyPair {
            private_key: *private_key,
            public_key,
            signing_key: *signing_key,
            verifying_key,
        })
    }

    /// X25519 key agreement with a peer's public key. The result must
    /// be passed through a KDF before use as a session secret.
    pub fn compute_shared_secret(&self, peer_public_key: &[u8; 32]) -> (r: CryptoResult<[u8; 32]>)
        ensures
            r is Ok,
            r.unwrap()@ == x25519_shared(self.spec_private_key(), peer_public_key@),
    {
        Ok(x25519_diffie_hellman(&self.private_key, peer_public_key))
    }

    /// Sign data with the Ed25519 signing seed. The signature is
    /// deterministic and verifies under this identity's verifying key.
    pub fn sign(&self, data: &[u8]) -> (r: CryptoResult<[u8; SIGNATURE_SIZE]>)
        ensures
            r is Ok,
            r.unwrap()@ == ed25519_sign_bytes(self.spec_signing_key(), data@),
            ed25519_verifies(self.spec_verifying_key(), data@, r.unwrap()@),
    {
        proof {
            use_type_invariant(self);
        }
        Ok(ed25519_sign(&self.signing_key, data))
    }

    /// The X25519 public key.
    pub fn get_public_key(&self) -> (r: &[u8; CURVE25519_KEY_SIZE])
        ensures
            r@ == self.spec_public_key(),
    {
        &self.public_key
    }

    /// The Ed25519 verifying key.
    pub fn get_verifying_key(&self) -> (r: &[u8; 32])
        ensures
            r@ == self.spec_verifying_key(),
    {
        &self.verifying_key
    }

    /// The X25519 secret seed; handle with care.
    pub fn get_private_key(&self) -> (r: &[u8])
        ensures
            r@ == self.spec_private_key(),
    {
        self.private_key.as_slice()
    }

    /// The Ed25519 signing seed; handle with care.
    pub fn get_signing_key(&self) -> (r: &[u8])
        ensures
            r@ == self.spec_signing_key(),
    {
        self.signing_key.as_slice()
    }
}

/// Ephemeral X25519 pair for one session key establishment.
pub struct EphemeralDH {
    /// Ephemeral secret scalar seed.
    private_key: [u8; CURVE25519_KEY_SIZE],
    /// Ephemeral public key.
    public_key: [u8; CURVE25519_KEY_SIZE],
}

impl EphemeralDH {
    /// The ephemeral secret seed.
    pub closed spec fn spec_private_key(self) -> Seq<u8> {
        self.private_key@
    }

    /// The ephemeral public key.
    pub closed spec fn spec_public_key(self) -> Seq<u8> {
        self.public_key@
    }

    /// True when every byte of the ephemeral secret seed is zero.
    pub closed spec fn secret_zeroed(self) -> bool {
        forall|j: int| 0 <= j < CURVE25519_KEY_SIZE ==> self.private_key@[j] == 0
    }

    /// Generate a fresh ephemeral pair from 32 random bytes.
    pub fn generate() -> (r: CryptoResult<Self>)
        ensures
            r is Ok,
            r.unwrap().spec_public_key() == x25519_public_of(r.unwrap().spec_private_key()),
    {
        let seed = match crate::utils::random_array::<CURVE25519_KEY_SIZE>() {
            Ok(s) => s,
            Err(_) => {
                return Err(CryptoError::RandomGenerationFailed);
            },
        };
        let public_key = x25519_public(&seed);
        Ok(EphemeralDH { private_key: seed, public_key })
    }

    /// X25519 key agreement with the peer's ephemeral public key.
    pub fn compute_shared_secret(&self, peer_public_key: &[u8; 32]) -> (r: [u8; 32])
        ensures
            r@ == x25519_shared(self.spec_private_key(), peer_public_key@),
    {
        x25519_diffie_hellman(&self.private_key, peer_public_key)
    }

    /// The ephemeral public key.
    pub fn public_key(&self) -> (r: &[u8; CURVE25519_KEY_SIZE])
        ensures
            r@ == self.spec_public_key(),
    {
        &self.public_key
    }

    /// The ephemeral public key as bytes.
    pub fn public_key_bytes(&self) -> (r: &[u8; CURVE25519_KEY_SIZE])
        ensures
            r@ == self.spec_public_key(),
    {
        &self.public_key
    }
}

impl Drop for EphemeralDH {
    /// Overwrite the ephemeral secret seed with zeros when the pair
    /// is destroyed.
    fn drop(&mut self)
        ensures
            final(self).secret_zeroed(),
        opens_invariants none
        no_unwind
    {
        let mut i: usize = 0;
        while i < CURVE25519_KEY_SIZE
            invariant
                i <= CURVE25519_KEY_SIZE,
                forall|j: int| 0 <= j < i ==> self.private_key@[j] == 0,
            decreases CURVE25519_KEY_SIZE - i,
        {
            self.private_key[i] = 0;
            i = i + 1;
        }
    }
}

/// Verify an Ed25519 signature strictly.
///
/// Returns `Ok` exactly when strict verification accepts the triple;
/// in particular every signature produced by [`KeyPair::sign`] is
/// accepted under that keypair's verifying key.
pub fn verify_signature(
    verifying_key: &[u8; 32],
    data: &[u8],
    signature: &[u8; SIGNATURE_SIZE],
) -> (r: CryptoResult<()>)
    ensures
        r is Ok <==> ed25519_verifies(verifying_key@, data@, signature@),
        r is Err ==> r.unwrap_err() is SignatureVerificationFailed,
{
    if ed25519_verify(verifying_key, data, signature) {
        Ok(())
    } else {
        Err(CryptoError::SignatureVerificationFailed)
    }
}

} // verus!
