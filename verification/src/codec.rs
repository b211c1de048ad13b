//! The envelope's concrete wire layout: version byte, big-endian
//! counter, message id and timestamp, the three nonces, a big-endian
//! ciphertext length and the ciphertext itself.
//!
//! Encoding and decoding are exact inverses: the decoder accepts a
//! byte string exactly when it is the encoding of some envelope, and
//! returns that envelope.

use vstd::prelude::*;
use crate::CryptoError;
use crate::CryptoResult;
use crate::encryption::EncryptedMessage;

verus! {

/// Size of the fixed header: version, counter, message id,
/// timestamp, three nonces and the ciphertext length field.
pub const WIRE_HEADER_SIZE: usize = 77;

/// A 64-bit value as 8 big-endian bytes.
pub open spec fn u64_be_bytes(x: u64) -> Seq<u8> {
    seq![
        (x >> 56) as u8,
        (x >> 48) as u8,
        (x >> 40) as u8,
        (x >> 32) as u8,
        (x >> 24) as u8,
        (x >> 16) as u8,
        (x >> 8) as u8,
        x as u8,
    ]
}

/// A 32-bit value as 4 big-endian bytes.
pub open spec fn u32_be_bytes(x: u32) -> Seq<u8> {
    seq![(x >> 24) as u8, (x >> 16) as u8, (x >> 8) as u8, x as u8]
}

/// The integer held by 4 big-endian bytes.
pub open spec fn u32_from_be_spec(s: Seq<u8>) -> int {
    s[0] * 0x1000000 + s[1] * 0x10000 + s[2] * 0x100 + s[3]
}

/// The wire form of an envelope.
pub open spec fn envelope_bytes(m: EncryptedMessage) -> Seq<u8> {
    seq![m.version]
        + u64_be_bytes(m.counter)
        + u64_be_bytes(m.message_id)
        + u64_be_bytes(m.timestamp as u64)
        + m.layer1_nonce@
        + m.layer2_nonce@
        + m.layer3_nonce@
        + u32_be_bytes(m.ciphertext@.len() as u32)
        + m.ciphertext@
}

/// Append the 8 big-endian bytes of `x`.
fn push_u64_be(out: &mut Vec<u8>, x: u64)
    ensures
        final(out)@ == old(out)@ + u64_be_bytes(x),
{
    let ghost base = out@;
    out.push((x >> 56) as u8);
    out.push((x >> 48) as u8);
    out.push((x >> 40) as u8);
    out.push((x >> 32) as u8);
    out.push((x >> 24) as u8);
    out.push((x >> 16) as u8);
    out.push((x >> 8) as u8);
    out.push(x as u8);
    proof {
        assert(out@ =~= base + u64_be_bytes(x));
    }
}

/// Append the 4 big-endian bytes of `x`.
fn push_u32_be(out: &mut Vec<u8>, x: u32)
    ensures
        final(out)@ == old(out)@ + u32_be_bytes(x),
{
    let ghost base = out@;
    out.push((x >> 24) as u8);
    out.push((x >> 16) as u8);
    out.push((x >> 8) as u8);
    out.push(x as u8);
    proof {
        assert(out@ =~= base + u32_be_bytes(x));
    }
}

/// Read the 8 big-endian bytes at `off` as a 64-bit value.
fn u64_from_be_at(bytes: &[u8], off: usize) -> (r: u64)
    requires
        off + 8 <= bytes@.len(),
    ensures
        u64_be_bytes(r) == bytes@.subrange(off as int, off + 8),
{
    let b0 = bytes[off];
    let b1 = bytes[off + 1];
    let b2 = bytes[off + 2];
    let b3 = bytes[off + 3];
    let b4 = bytes[off + 4];
    let b5 = bytes[off + 5];
    let b6 = bytes[off + 6];
    let b7 = bytes[off + 7];
    let x: u64 = ((b0 as u64) << 56) | ((b1 as u64) << 48) | ((b2 as u64) << 40)
        | ((b3 as u64) << 32) | ((b4 as u64) << 24) | ((b5 as u64) << 16)
        | ((b6 as u64) << 8) | (b7 as u64);
    proof {
        assert({
            let y: u64 = ((b0 as u64) << 56) | ((b1 as u64) << 48) | ((b2 as u64) << 40)
                | ((b3 as u64) << 32) | ((b4 as u64) << 24) | ((b5 as u64) << 16)
                | ((b6 as u64) << 8) | (b7 as u64);
            (y >> 56) as u8 == b0 && (y >> 48) as u8 == b1 && (y >> 40) as u8 == b2
                && (y >> 32) as u8 == b3 && (y >> 24) as u8 == b4 && (y >> 16) as u8 == b5
                && (y >> 8) as u8 == b6 && y as u8 == b7
        }) by (bit_vector);
        assert(u64_be_bytes(x) =~= bytes@.subrange(off as int, off + 8));
    }
    x
}

/// Read the 4 big-endian bytes at `off` as a 32-bit value.
fn u32_from_be_at(bytes: &[u8], off: usize) -> (r: u32)
    requires
        off + 4 <= bytes@.len(),
    ensures
        u32_be_bytes(r) == bytes@.subrange(off as int, off + 4),
        r == u32_from_be_spec(bytes@.subrange(off as int, off + 4)),
{
    let b0 = bytes[off];
    let b1 = bytes[off + 1];
    let b2 = bytes[off + 2];
    let b3 = bytes[off + 3];
    let x: u32 = ((b0 as u32) << 24) | ((b1 as u32) << 16) | ((b2 as u32) << 8) | (b3 as u32);
    proof {
        assert({
            let y: u32 = ((b0 as u32) << 24) | ((b1 as u32) << 16) | ((b2 as u32) << 8)
                | (b3 as u32);
            (y >> 24) as u8 == b0 && (y >> 16) as u8 == b1 && (y >> 8) as u8 == b2
                && y as u8 == b3
        }) by (bit_vector);
        assert({
            let y: u32 = ((b0 as u32) << 24) | ((b1 as u32) << 16) | ((b2 as u32) << 8)
                | (b3 as u32);
            y == (b0 as u32) * 0x1000000 + (b1 as u32) * 0x10000 + (b2 as u32) * 0x100
                + (b3 as u32)
        }) by (bit_vector);
        assert(u32_be_bytes(x) =~= bytes@.subrange(off as int, off + 4));
        assert(x == u32_from_be_spec(bytes@.subrange(off as int, off + 4)));
    }
    x
}

/// Encode an envelope into its wire form.
///
/// Succeeds exactly when the ciphertext length fits the 4-byte
/// length field.
pub fn encode_envelope(message: &EncryptedMessage) -> (r: CryptoResult<Vec<u8>>)
    ensures
        r is Ok <==> message.ciphertext@.len() <= u32::MAX,
        r is Ok ==> r.unwrap()@ == envelope_bytes(*message),
{
    if message.ciphertext.len() > u32::MAX as usize {
        return Err(CryptoError::SerializationError("ciphertext too long".to_string()));
    }
    let mut out: Vec<u8> = Vec::new();
    out.push(message.version);
    push_u64_be(&mut out, message.counter);
    push_u64_be(&mut out, message.message_id);
    push_u64_be(&mut out, #[verifier::truncate] (message.timestamp as u64));
    out.extend_from_slice(message.layer1_nonce.as_slice());
    out.extend_from_slice(message.layer2_nonce.as_slice());
    out.extend_from_slice(message.layer3_nonce.as_slice());
    push_u32_be(&mut out, message.ciphertext.len() as u32);
    out.extend_from_slice(message.ciphertext.as_slice());
    proof {
        assert(out@ =~= envelope_bytes(*message));
    }
    Ok(out)
}

/// Decode a wire-form envelope.
///
/// Succeeds exactly when the bytes are long enough for the header
/// and the length field matches the remaining length; the returned
/// envelope re-encodes to exactly the input.
pub fn decode_envelope(bytes: &[u8]) -> (r: CryptoResult<EncryptedMessage>)
    ensures
        match r {
            Ok(m) => {
                &&& bytes@ == envelope_bytes(m)
                &&& m.ciphertext@.len() <= u32::MAX
            },
            Err(e) => {
                &&& (bytes@.len() < WIRE_HEADER_SIZE
                    || bytes@.len() != WIRE_HEADER_SIZE + u32_from_be_spec(
                        bytes@.subrange(73, 77)))
                &&& e is SerializationError
            },
        },
{
    if bytes.len() < WIRE_HEADER_SIZE {
        return Err(CryptoError::SerializationError("truncated envelope".to_string()));
    }
    let version = bytes[0];
    let counter = u64_from_be_at(bytes, 1);
    let message_id = u64_from_be_at(bytes, 9);
    let timestamp_bits = u64_from_be_at(bytes, 17);
    let timestamp: i64 = #[verifier::truncate] (timestamp_bits as i64);

    let mut layer1_nonce = [0u8; 24];
    let mut i: usize = 0;
    while i < 24
        invariant
            i <= 24,
            bytes@.len() >= WIRE_HEADER_SIZE,
            forall|j: int| 0 <= j < i ==> layer1_nonce@[j] == bytes@[25 + j],
        decreases 24 - i,
    {
        layer1_nonce[i] = bytes[25 + i];
        i = i + 1;
    }
    let mut layer2_nonce = [0u8; 12];
    let mut i: usize = 0;
    while i < 12
        invariant
            i <= 12,
            bytes@.len() >= WIRE_HEADER_SIZE,
            forall|j: int| 0 <= j < i ==> layer2_nonce@[j] == bytes@[49 + j],
        decreases 12 - i,
    {
        layer2_nonce[i] = bytes[49 + i];
        i = i + 1;
    }
    let mut layer3_nonce = [0u8; 12];
    let mut i: usize = 0;
    while i < 12
        invariant
            i <= 12,
            bytes@.len() >= WIRE_HEADER_SIZE,
            forall|j: int| 0 <= j < i ==> layer3_nonce@[j] == bytes@[61 + j],
        decreases 12 - i,
    {
        layer3_nonce[i] = bytes[61 + i];
        i = i + 1;
    }

    let len_field = u32_from_be_at(bytes, 73);
    let declared = len_field as usize;
    if bytes.len() - WIRE_HEADER_SIZE != declared {
        return Err(CryptoError::SerializationError("length field mismatch".to_string()));
    }

    let mut ciphertext: Vec<u8> = Vec::new();
    let mut pos: usize = WIRE_HEADER_SIZE;
    let total = bytes.len();
    while pos < total
        invariant
            WIRE_HEADER_SIZE <= pos <= total,
            total == bytes@.len(),
            bytes@.len() == WIRE_HEADER_SIZE + declared,
            ciphertext@.len() == pos - WIRE_HEADER_SIZE,
            forall|j: int| 0 <= j < pos - WIRE_HEADER_SIZE ==> ciphertext@[j] == bytes@[77 + j],
        decreases total - pos,
    {
        ciphertext.push(bytes[pos]);
        pos = pos + 1;
    }

    let message = EncryptedMessage {
        version,
        ciphertext,
        layer1_nonce,
        layer2_nonce,
        layer3_nonce,
        counter,
        message_id,
        timestamp,
    };
    proof {
        assert((timestamp_bits as i64) as u64 == timestamp_bits) by (bit_vector);
        assert(message.ciphertext@.len() as u32 == len_field);
        assert(u64_be_bytes(message.timestamp as u64) == bytes@.subrange(17, 25));
        assert(u32_be_bytes(message.ciphertext@.len() as u32) == bytes@.subrange(73, 77));
        assert(bytes@ =~= envelope_bytes(message));
    }
    Ok(message)
}

/// The wire encoding is injective: two envelopes with the same
/// encoding agree on every field. Together with the contracts of
/// [`encode_envelope`] and [`decode_envelope`] this gives the round
/// trip: decoding an encoding returns the original envelope.
pub proof fn lemma_envelope_encoding_injective(m1: EncryptedMessage, m2: EncryptedMessage)
    requires
        envelope_bytes(m1) == envelope_bytes(m2),
    ensures
        m1.version == m2.version,
        m1.counter == m2.counter,
        m1.message_id == m2.message_id,
        m1.timestamp == m2.timestamp,
        m1.layer1_nonce@ == m2.layer1_nonce@,
        m1.layer2_nonce@ == m2.layer2_nonce@,
        m1.layer3_nonce@ == m2.layer3_nonce@,
        m1.ciphertext@ == m2.ciphertext@,
{
    let b1 = envelope_bytes(m1);
    let b2 = envelope_bytes(m2);
    assert(b1.len() == 77 + m1.ciphertext@.len());
    assert(b2.len() == 77 + m2.ciphertext@.len());
    assert(m1.version == b1[0] && m2.version == b2[0]);

    lemma_u64_be_at(b1, m1.counter, 1);
    lemma_u64_be_at(b2, m2.counter, 1);
    lemma_u64_be_injective(m1.counter, m2.counter);

    lemma_u64_be_at(b1, m1.message_id, 9);
    lemma_u64_be_at(b2, m2.message_id, 9);
    lemma_u64_be_injective(m1.message_id, m2.message_id);

    lemma_u64_be_at(b1, m1.timestamp as u64, 17);
    lemma_u64_be_at(b2, m2.timestamp as u64, 17);
    lemma_u64_be_injective(m1.timestamp as u64, m2.timestamp as u64);
    let t1: i64 = m1.timestamp;
    let t2: i64 = m2.timestamp;
    assert(t1 as u64 == t2 as u64 ==> t1 == t2) by (bit_vector);

    assert(m1.layer1_nonce@ =~= b1.subrange(25, 49));
    assert(m2.layer1_nonce@ =~= b2.subrange(25, 49));
    assert(m1.layer2_nonce@ =~= b1.subrange(49, 61));
    assert(m2.layer2_nonce@ =~= b2.subrange(49, 61));
    assert(m1.layer3_nonce@ =~= b1.subrange(61, 73));
    assert(m2.layer3_nonce@ =~= b2.subrange(61, 73));

    assert(m1.ciphertext@ =~= b1.subrange(77, b1.len() as int));
    assert(m2.ciphertext@ =~= b2.subrange(77, b2.len() as int));
}

/// In an envelope's wire form, the 8 bytes at `off` holding a 64-bit
/// field are that field's big-endian bytes.
proof fn lemma_u64_be_at(b: Seq<u8>, x: u64, off: int)
    requires
        0 <= off,
        off + 8 <= b.len(),
        forall|j: int| 0 <= j < 8 ==> b[off + j] == u64_be_bytes(x)[j],
    ensures
        b.subrange(off, off + 8) == u64_be_bytes(x),
{
    assert(b.subrange(off, off + 8) =~= u64_be_bytes(x));
}

/// Big-endian encoding of 64-bit values is injective.
proof fn lemma_u64_be_injective(x: u64, y: u64)
    requires
        u64_be_bytes(x) == u64_be_bytes(y),
    ensures
        x == y,
{
    assert(u64_be_bytes(x)[0] == u64_be_bytes(y)[0]);
    assert(u64_be_bytes(x)[1] == u64_be_bytes(y)[1]);
    assert(u64_be_bytes(x)[2] == u64_be_bytes(y)[2]);
    assert(u64_be_bytes(x)[3] == u64_be_bytes(y)[3]);
    assert(u64_be_bytes(x)[4] == u64_be_bytes(y)[4]);
    assert(u64_be_bytes(x)[5] == u64_be_bytes(y)[5]);
    assert(u64_be_bytes(x)[6] == u64_be_bytes(y)[6]);
    assert(u64_be_bytes(x)[7] == u64_be_bytes(y)[7]);
    assert((x >> 56) as u8 == (y >> 56) as u8 && (x >> 48) as u8 == (y >> 48) as u8
        && (x >> 40) as u8 == (y >> 40) as u8 && (x >> 32) as u8 == (y >> 32) as u8
        && (x >> 24) as u8 == (y >> 24) as u8 && (x >> 16) as u8 == (y >> 16) as u8
        && (x >> 8) as u8 == (y >> 8) as u8 && x as u8 == y as u8 ==> x == y) by (bit_vector);
}

} // verus!
