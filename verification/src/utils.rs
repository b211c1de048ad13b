//! Hashing, HMAC, password KDF, random generation, constant-time
//! comparison and secure wiping.

use vstd::prelude::*;
use rand::RngCore;
use sha2::Digest;
use hmac::Mac;

verus! {

/// The SHA-256 digest of a byte string.
pub uninterp spec fn sha256_of(data: Seq<u8>) -> Seq<u8>;

/// The SHA-512 digest of a byte string.
pub uninterp spec fn sha512_of(data: Seq<u8>) -> Seq<u8>;

/// The HMAC-SHA-256 tag of a message under a key.
pub uninterp spec fn hmac_sha256_of(key: Seq<u8>, data: Seq<u8>) -> Seq<u8>;

/// The HMAC-SHA-512 tag of a message under a key.
pub uninterp spec fn hmac_sha512_of(key: Seq<u8>, data: Seq<u8>) -> Seq<u8>;

/// The 32-byte scrypt derivation of a password and salt under cost
/// parameters (log2 N, block size r, parallelism p).
pub uninterp spec fn scrypt32_of(
    password: Seq<u8>,
    salt: Seq<u8>,
    log_n: u8,
    block_size: u32,
    parallelism: u32,
) -> Seq<u8>;

/// Hash data with SHA-256.
///
/// Relies on sha2::Sha256::digest: a deterministic 32-byte digest.
#[verifier::external_body]
pub fn hash_sha256(data: &[u8]) -> (r: [u8; 32])
    ensures
        r@ == sha256_of(data@),
{
    let mut hash = [0u8; 32];
    hash.copy_from_slice(&sha2::Sha256::digest(data));
    hash
}

/// Hash data with SHA-512.
///
/// Relies on sha2::Sha512::digest: a deterministic 64-byte digest.
#[verifier::external_body]
pub fn hash_sha512(data: &[u8]) -> (r: [u8; 64])
    ensures
        r@ == sha512_of(data@),
{
    let mut hash = [0u8; 64];
    hash.copy_from_slice(&sha2::Sha512::digest(data));
    hash
}

/// Compute HMAC-SHA-256.
///
/// Relies on hmac::Hmac<Sha256>: deterministic in key and message;
/// keys of any length are accepted.
#[verifier::external_body]
pub fn hmac_sha256(key: &[u8], data: &[u8]) -> (r: [u8; 32])
    ensures
        r@ == hmac_sha256_of(key@, data@),
{
    let mut mac = hmac::Hmac::<sha2::Sha256>::new_from_slice(key).unwrap();
    mac.update(data);
    let mut hash = [0u8; 32];
    hash.copy_from_slice(&mac.finalize().into_bytes());
    hash
}

/// Compute HMAC-SHA-512.
///
/// Relies on hmac::Hmac<Sha512>: deterministic in key and message;
/// keys of any length are accepted.
#[verifier::external_body]
pub fn hmac_sha512(key: &[u8], data: &[u8]) -> (r: [u8; 64])
    ensures
        r@ == hmac_sha512_of(key@, data@),
{
    let mut mac = hmac::Hmac::<sha2::Sha512>::new_from_slice(key).unwrap();
    mac.update(data);
    let mut hash = [0u8; 64];
    hash.copy_from_slice(&mac.finalize().into_bytes());
    hash
}

/// Relies on scrypt::scrypt with scrypt::Params::new: deterministic
/// in password, salt and cost parameters; the parameter triple this
/// crate uses is valid and a 32-byte output length is accepted.
#[verifier::external_body]
fn scrypt_derive32(
    password: &[u8],
    salt: &[u8],
    log_n: u8,
    block_size: u32,
    parallelism: u32,
) -> (r: [u8; 32])
    requires
        log_n == 14,
        block_size == 8,
        parallelism == 1,
    ensures
        r@ == scrypt32_of(password@, salt@, log_n, block_size, parallelism),
{
    let params = scrypt::Params::new(log_n, block_size, parallelism, 32).unwrap();
    let mut key = [0u8; 32];
    scrypt::scrypt(password, salt, &params, &mut key).unwrap();
    key
}

/// Derive a 32-byte key from a password with scrypt, at N = 2^14,
/// r = 8, p = 1. The salt must be 32 random bytes per password.
pub fn derive_key_from_password(password: &[u8], salt: &[u8; 32]) -> (r: Result<[u8; 32], crate::CryptoError>)
    ensures
        r is Ok,
        r.unwrap()@ == scrypt32_of(password@, salt@, 14, 8, 1),
{
    Ok(scrypt_derive32(password, salt.as_slice(), 14, 8, 1))
}

/// Overwrite a buffer in place with random bytes.
///
/// Relies on rand::rngs::ThreadRng::fill_bytes: fills the whole
/// buffer, leaving its length unchanged.
#[verifier::external_body]
fn fill_random(buffer: &mut Vec<u8>)
    ensures
        final(buffer)@.len() == old(buffer)@.len(),
{
    rand::thread_rng().fill_bytes(buffer.as_mut_slice());
}

/// Multi-pass secure overwrite: three fixed patterns (0x00, 0xFF,
/// 0xAA), then four random passes. Only the length of the buffer is
/// preserved; its final contents are random.
pub fn secure_wipe(buffer: &mut Vec<u8>)
    ensures
        final(buffer)@.len() == old(buffer)@.len(),
{
    overwrite_with(buffer, 0x00);
    overwrite_with(buffer, 0xFF);
    overwrite_with(buffer, 0xAA);

    let mut pass: usize = 0;
    while pass < 3
        invariant
            buffer@.len() == old(buffer)@.len(),
        decreases 3 - pass,
    {
        fill_random(buffer);
        pass = pass + 1;
    }

    fill_random(buffer);
}

/// Overwrite every byte of the buffer with one fixed value.
fn overwrite_with(buffer: &mut Vec<u8>, value: u8)
    ensures
        final(buffer)@.len() == old(buffer)@.len(),
        forall|j: int| 0 <= j < final(buffer)@.len() ==> final(buffer)@[j] == value,
{
    let mut i: usize = 0;
    while i < buffer.len()
        invariant
            buffer@.len() == old(buffer)@.len(),
            i <= buffer@.len(),
            forall|j: int| 0 <= j < i ==> buffer@[j] == value,
        decreases buffer@.len() - i,
    {
        buffer[i] = value;
        i = i + 1;
    }
}

/// Generate `size` random bytes from the process-wide CSPRNG.
///
/// Relies on rand::rngs::ThreadRng::fill_bytes: fills the whole buffer
/// from a cryptographically secure source.
#[verifier::external_body]
pub fn random_bytes(size: usize) -> (r: Result<Vec<u8>, crate::CryptoError>)
    ensures
        r is Ok,
        r.unwrap()@.len() == size,
{
    let mut bytes = vec![0u8; size];
    rand::thread_rng().fill_bytes(&mut bytes);
    Ok(bytes)
}

/// Generate a random `N`-byte array from the process-wide CSPRNG.
///
/// Relies on rand::rngs::ThreadRng::fill_bytes: fills the whole buffer
/// from a cryptographically secure source.
#[verifier::external_body]
pub fn random_array<const N: usize>() -> (r: Result<[u8; N], crate::CryptoError>)
    ensures
        r is Ok,
{
    let mut array = [0u8; N];
    rand::thread_rng().fill_bytes(&mut array);
    Ok(array)
}

/// Draw one random 64-bit value.
///
/// Relies on rand::random::<u64>; nothing can be promised of the value.
#[verifier::external_body]
pub(crate) fn random_u64() -> u64 {
    rand::random::<u64>()
}

/// Constant-time comparison of two byte strings.
///
/// Returns true exactly when the two inputs hold the same bytes. The
/// byte comparison accumulates differences with xor/or so that its
/// timing does not depend on the data, only on the length.
pub fn constant_time_compare(a: &[u8], b: &[u8]) -> (r: bool)
    ensures
        r <==> a@ == b@,
{
    if a.len() != b.len() {
        proof {
            assert(a@.len() != b@.len());
        }
        return false;
    }

    let mut result: u8 = 0;
    let mut i: usize = 0;
    while i < a.len()
        invariant
            a@.len() == b@.len(),
            i <= a@.len(),
            result == 0 <==> (forall|j: int| 0 <= j < i ==> a@[j] == b@[j]),
        decreases a@.len() - i,
    {
        let x = a[i];
        let y = b[i];
        proof {
            assert((x ^ y) == 0 <==> x == y) by (bit_vector);
            assert((result | (x ^ y)) == 0 <==> result == 0 && (x ^ y) == 0) by (bit_vector);
        }
        result = result | (x ^ y);
        i = i + 1;
    }

    proof {
        if result == 0 {
            assert(a@ =~= b@);
        }
    }
    result == 0
}

} // verus!
