//! Trusted facade over HKDF-SHA-256.
//!
//! HKDF is deterministic: the 32-byte output is a function of the
//! input key material and the info label alone. The output is named
//! by an uninterpreted spec function; every subkey contract in the
//! crate is phrased over that name.

use vstd::prelude::*;
use hkdf::Hkdf;
use sha2::Sha256;

verus! {

/// What HKDF-SHA-256 extract-then-expand with empty salt produces for
/// a given input key material and ASCII info label, at 32 bytes of
/// output.
pub uninterp spec fn hkdf_sha256_expand32(ikm: Seq<u8>, info: Seq<char>) -> Seq<u8>;

/// Relies on hkdf::Hkdf<Sha256>: `new(None, ikm)` followed by
/// `expand(info, out)`; deterministic in (ikm, info), and a 32-byte
/// output length can never exceed the HKDF bound of 255 hash blocks.
#[verifier::external_body]
pub(crate) fn hkdf_expand32(ikm: &[u8], info: &str) -> (r: [u8; 32])
    ensures
        r@ == hkdf_sha256_expand32(ikm@, info@),
{
    let hk = Hkdf::<Sha256>::new(None, ikm);
    let mut okm = [0u8; 32];
    hk.expand(info.as_bytes(), &mut okm).unwrap();
    okm
}

} // verus!
