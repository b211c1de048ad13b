//! Post-quantum key encapsulation (Kyber1024 / ML-KEM-1024) and the
//! hybrid combiner that folds a classical and a quantum secret into
//! one session secret.

use vstd::prelude::*;
use pqcrypto_traits::kem::Ciphertext;
use pqcrypto_traits::kem::PublicKey;
use pqcrypto_traits::kem::SecretKey;
use pqcrypto_traits::kem::SharedSecret;
use crate::CryptoError;
use crate::CryptoResult;
use crate::kdf::hkdf_sha256_expand32;
use crate::kdf::hkdf_expand32;

verus! {

/// Kyber1024 encapsulation (public) key size.
pub const KYBER_EK_SIZE: usize = 1568;

/// Kyber1024 decapsulation (secret) key size.
pub const KYBER_DK_SIZE: usize = 3168;

/// Kyber1024 ciphertext size.
pub const KYBER_CT_SIZE: usize = 1568;

/// Kyber1024 shared secret size.
pub const KYBER_SS_SIZE: usize = 32;

/// Whether a Kyber1024 public key and secret key came from one
/// keypair generation; decapsulation under the matching secret key
/// recovers every shared secret encapsulated to the public key.
pub uninterp spec fn kyber_keypair_related(pk: Seq<u8>, sk: Seq<u8>) -> bool;

/// What Kyber1024 decapsulation returns for a secret key and a
/// ciphertext; a pure function of the two byte strings, and never a
/// rejection (an invalid ciphertext yields a pseudorandom secret).
pub uninterp spec fn kyber1024_decap(sk: Seq<u8>, ct: Seq<u8>) -> Seq<u8>;

/// Relies on pqcrypto_kyber::kyber1024::keypair: draws a fresh
/// keypair whose halves have the documented sizes and whose secret
/// half decapsulates what is encapsulated to its public half.
#[verifier::external_body]
fn kyber1024_keypair() -> (r: (Vec<u8>, Vec<u8>))
    ensures
        r.0@.len() == KYBER_EK_SIZE,
        r.1@.len() == KYBER_DK_SIZE,
        kyber_keypair_related(r.0@, r.1@),
{
    let (pk, sk) = pqcrypto_kyber::kyber1024::keypair();
    (pk.as_bytes().to_vec(), sk.as_bytes().to_vec())
}

/// Relies on pqcrypto_kyber::kyber1024::encapsulate: produces a
/// 1120-byte ciphertext and a 32-byte shared secret such that
/// decapsulation under the matching secret key returns that secret.
#[verifier::external_body]
fn kyber1024_encapsulate(peer_public_key: &[u8]) -> (r: ([u8; KYBER_SS_SIZE], Vec<u8>))
    requires
        peer_public_key@.len() == KYBER_EK_SIZE,
    ensures
        r.1@.len() == KYBER_CT_SIZE,
        forall|sk: Seq<u8>| #[trigger] kyber_keypair_related(peer_public_key@, sk)
            ==> kyber1024_decap(sk, r.1@) == r.0@,
{
    let pk = pqcrypto_kyber::kyber1024::PublicKey::from_bytes(peer_public_key).unwrap();
    let (ss, ct) = pqcrypto_kyber::kyber1024::encapsulate(&pk);
    let mut out = [0u8; KYBER_SS_SIZE];
    out.copy_from_slice(ss.as_bytes());
    (out, ct.as_bytes().to_vec())
}

/// Relies on pqcrypto_kyber::kyber1024::decapsulate: a deterministic
/// function of the secret key and ciphertext that never rejects.
#[verifier::external_body]
fn kyber1024_decapsulate(secret_key: &[u8], ciphertext: &[u8]) -> (r: [u8; KYBER_SS_SIZE])
    requires
        secret_key@.len() == KYBER_DK_SIZE,
        ciphertext@.len() == KYBER_CT_SIZE,
    ensures
        r@ == kyber1024_decap(secret_key@, ciphertext@),
{
    let sk = pqcrypto_kyber::kyber1024::SecretKey::from_bytes(secret_key).unwrap();
    let ct = pqcrypto_kyber::kyber1024::Ciphertext::from_bytes(ciphertext).unwrap();
    let ss = pqcrypto_kyber::kyber1024::decapsulate(&ct, &sk);
    let mut out = [0u8; KYBER_SS_SIZE];
    out.copy_from_slice(ss.as_bytes());
    out
}

/// A Kyber1024 keypair: encapsulation key and decapsulation key.
pub struct PostQuantumKeyPair {
    /// Encapsulation (public) key, 1568 bytes.
    public_key: Vec<u8>,
    /// Decapsulation (secret) key, 3168 bytes.
    secret_key: Vec<u8>,
}

impl PostQuantumKeyPair {
    /// The stored public key bytes.
    pub closed spec fn spec_public_key(self) -> Seq<u8> {
        self.public_key@
    }

    /// The stored secret key bytes.
    pub closed spec fn spec_secret_key(self) -> Seq<u8> {
        self.secret_key@
    }

    /// Both halves have their documented sizes and came from one
    /// keypair generation.
    #[verifier::type_invariant]
    spec fn well_formed(self) -> bool {
        &&& self.public_key@.len() == KYBER_EK_SIZE
        &&& self.secret_key@.len() == KYBER_DK_SIZE
        &&& kyber_keypair_related(self.public_key@, self.secret_key@)
    }

    /// Generate a new Kyber1024 keypair.
    pub fn generate() -> (r: CryptoResult<Self>)
        ensures
            r is Ok,
            r.unwrap().spec_public_key().len() == KYBER_EK_SIZE,
            r.unwrap().spec_secret_key().len() == KYBER_DK_SIZE,
            kyber_keypair_related(r.unwrap().spec_public_key(), r.unwrap().spec_secret_key()),
    {
        let (public_key, secret_key) = kyber1024_keypair();
        Ok(PostQuantumKeyPair { public_key, secret_key })
    }

    /// The encapsulation key bytes.
    pub fn public_key_bytes(&self) -> (r: &[u8])
        ensures
            r@ == self.spec_public_key(),
            r@.len() == KYBER_EK_SIZE,
    {
        proof {
            use_type_invariant(self);
        }
        self.public_key.as_slice()
    }

    /// The decapsulation key bytes; handle with care.
    pub fn secret_key_bytes(&self) -> (r: &[u8])
        ensures
            r@ == self.spec_secret_key(),
            r@.len() == KYBER_DK_SIZE,
    {
        proof {
            use_type_invariant(self);
        }
        self.secret_key.as_slice()
    }

    /// Encapsulate to a peer's public key: a fresh shared secret and
    /// the ciphertext that carries it.
    ///
    /// Succeeds exactly when the key has the Kyber1024 size; the
    /// shared secret is recovered by decapsulation under the secret
    /// key matching `peer_public_key`.
    pub fn encapsulate(peer_public_key: &[u8]) -> (r: CryptoResult<([u8; KYBER_SS_SIZE], Vec<u8>)>)
        ensures
            match r {
                Ok(pair) => {
                    &&& peer_public_key@.len() == KYBER_EK_SIZE
                    &&& pair.1@.len() == KYBER_CT_SIZE
                    &&& forall|sk: Seq<u8>| #[trigger] kyber_keypair_related(peer_public_key@, sk)
                        ==> kyber1024_decap(sk, pair.1@) == pair.0@
                },
                Err(e) => {
                    &&& peer_public_key@.len() != KYBER_EK_SIZE
                    &&& e is InvalidKey
                },
            },
    {
        if peer_public_key.len() != KYBER_EK_SIZE {
            return Err(CryptoError::InvalidKey("Invalid Kyber public key size".to_string()));
        }
        Ok(kyber1024_encapsulate(peer_public_key))
    }

    /// Decapsulate a ciphertext with this keypair's secret key.
    ///
    /// Succeeds exactly when the ciphertext has the Kyber1024 size;
    /// decapsulation itself never rejects.
    pub fn decapsulate(&self, ciphertext: &[u8]) -> (r: CryptoResult<[u8; KYBER_SS_SIZE]>)
        ensures
            match r {
                Ok(ss) => {
                    &&& ciphertext@.len() == KYBER_CT_SIZE
                    &&& ss@ == kyber1024_decap(self.spec_secret_key(), ciphertext@)
                },
                Err(e) => {
                    &&& ciphertext@.len() != KYBER_CT_SIZE
                    &&& e is InvalidKey
                },
            },
    {
        proof {
            use_type_invariant(self);
        }
        if ciphertext.len() != KYBER_CT_SIZE {
            return Err(CryptoError::InvalidKey("Invalid ciphertext size".to_string()));
        }
        Ok(kyber1024_decapsulate(self.secret_key.as_slice(), ciphertext))
    }
}

/// KEM correctness law: a shared secret that every matching secret
/// key decapsulates from a ciphertext is in particular recovered by
/// the one keypair that encapsulation was addressed to.
pub proof fn lemma_kem_round_trip(pk: Seq<u8>, sk: Seq<u8>, ss: Seq<u8>, ct: Seq<u8>)
    requires
        kyber_keypair_related(pk, sk),
        forall|s: Seq<u8>| #[trigger] kyber_keypair_related(pk, s) ==> kyber1024_decap(s, ct) == ss,
    ensures
        kyber1024_decap(sk, ct) == ss,
{
}

/// Hybrid key agreement: a classical ECDH secret and a quantum KEM
/// secret, concatenated classical-first into the extraction input.
pub struct HybridKeyAgreement {
    /// Classical ECDH shared secret.
    pub classical_secret: [u8; 32],
    /// Post-quantum KEM shared secret.
    pub quantum_secret: [u8; 32],
    /// The 64-byte concatenation, classical first.
    pub hybrid_secret: [u8; 64],
}

impl HybridKeyAgreement {
    /// Fold the two secrets into the fixed-order concatenation.
    pub fn new(classical_secret: [u8; 32], quantum_secret: [u8; 32]) -> (r: Self)
        ensures
            r.classical_secret@ == classical_secret@,
            r.quantum_secret@ == quantum_secret@,
            r.hybrid_secret@ == classical_secret@ + quantum_secret@,
    {
        let mut hybrid_secret = [0u8; 64];
        let mut i: usize = 0;
        while i < 32
            invariant
                i <= 32,
                forall|j: int| 0 <= j < i ==> hybrid_secret@[j] == classical_secret@[j],
            decreases 32 - i,
        {
            hybrid_secret[i] = classical_secret[i];
            i = i + 1;
        }
        let mut k: usize = 0;
        while k < 32
            invariant
                k <= 32,
                forall|j: int| 0 <= j < 32 ==> hybrid_secret@[j] == classical_secret@[j],
                forall|j: int| 0 <= j < k ==> hybrid_secret@[32 + j] == quantum_secret@[j],
            decreases 32 - k,
        {
            hybrid_secret[32 + k] = quantum_secret[k];
            k = k + 1;
        }
        proof {
            assert(hybrid_secret@ =~= classical_secret@ + quantum_secret@);
        }
        HybridKeyAgreement { classical_secret, quantum_secret, hybrid_secret }
    }

    /// Derive the 32-byte session secret from the concatenation by
    /// HKDF-SHA-256 under the hybrid domain-separation label.
    pub fn combined_secret(&self) -> (r: CryptoResult<[u8; 32]>)
        ensures
            r is Ok,
            r.unwrap()@ == hkdf_sha256_expand32(self.hybrid_secret@, "chakchat_hybrid_secret"@),
    {
        Ok(hkdf_expand32(self.hybrid_secret.as_slice(), "chakchat_hybrid_secret"))
    }
}

} // verus!
