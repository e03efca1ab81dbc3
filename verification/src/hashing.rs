//! Deterministic maps from byte strings into `Fr`, `G1` and `G2`, and the
//! keystream used for symmetric masking.
//!
//! Hashing follows one fixed construction: a 256-bit digest of the input
//! seeds a deterministic pseudorandom generator, and one element is drawn
//! from the generator's output distribution over the target structure.  For
//! masking, the generator's byte stream is combined with the payload by
//! exclusive or.  Equal inputs always yield equal outputs.

use vstd::prelude::*;
use crate::field::Scalar;
use crate::group::{g1_ok, g2_ok, g1_dlog, g2_dlog, g1_repr, g2_repr, g1_to_bytes, g2_to_bytes};
use pairing::bls12_381::{Fr, G1, G2};
use pairing::PrimeField;
use rand::{ChaChaRng, Rand, Rng, SeedableRng};
use tiny_keccak::sha3_256;

verus! {

/// The 32-byte SHA3-256 digest of a byte string.
pub uninterp spec fn digest_of(m: Seq<u8>) -> Seq<u8>;

/// The reduced scalar drawn from the seeded generator's output distribution
/// over `Fr`.
pub uninterp spec fn draw_fr(seed: Seq<u32>) -> nat;

/// The exponent of the `G1` subgroup point drawn from the seeded generator's
/// output distribution over `G1`.
pub uninterp spec fn draw_g1(seed: Seq<u32>) -> nat;

/// The exponent of the `G2` subgroup point drawn from the seeded generator's
/// output distribution over `G2`.
pub uninterp spec fn draw_g2(seed: Seq<u32>) -> nat;

/// Byte `i` of the seeded generator's keystream.
pub uninterp spec fn stream_byte(seed: Seq<u32>, i: int) -> u8;

/// The eight little-endian 32-bit words packed from a 32-byte digest.
pub open spec fn words_of(b: Seq<u8>) -> Seq<u32> {
    Seq::new(8, |i: int|
        (b[4 * i] + 0x100 * b[4 * i + 1] + 0x1_0000 * b[4 * i + 2] + 0x100_0000 * b[4 * i + 3]) as u32)
}

/// The scalar value hashed from a byte string.
pub open spec fn hash_fr_spec(m: Seq<u8>) -> nat {
    draw_fr(words_of(digest_of(m)))
}

/// The `G1` exponent hashed from a byte string.
pub open spec fn hash_g1_spec(m: Seq<u8>) -> nat {
    draw_g1(words_of(digest_of(m)))
}

/// The `G2` exponent hashed from a byte string.
pub open spec fn hash_g2_spec(m: Seq<u8>) -> nat {
    draw_g2(words_of(digest_of(m)))
}

/// A long message is first reduced to its digest before a group element's
/// representation is appended.
pub open spec fn mix_spec(m: Seq<u8>, rb: Seq<u8>) -> Seq<u8> {
    if m.len() > 64 {
        digest_of(m) + rb
    } else {
        m + rb
    }
}

/// The payload combined bytewise, by exclusive or, with the keystream seeded
/// from the digest of the seed material.
pub open spec fn mask_bytes(seed_material: Seq<u8>, data: Seq<u8>) -> Seq<u8> {
    Seq::new(data.len(), |i: int| data[i] ^ stream_byte(words_of(digest_of(seed_material)), i))
}

/// The SHA3-256 digest of a byte string.
///
/// Relies on `tiny_keccak::sha3_256`: a 32-byte digest depending on the
/// input bytes alone.
#[verifier::external_body]
fn sha3_digest(m: &[u8]) -> (r: [u8; 32])
    ensures
        r@ == digest_of(m@),
{
    sha3_256(m)
}

/// One scalar drawn from the generator seeded with the given words.
///
/// Relies on `ChaChaRng::from_seed` and the `pairing` crate's `Rand`
/// instance for `Fr`: the reduced scalar drawn depends on the seed alone.
#[verifier::external_body]
fn chacha_draw_fr(seed: &[u32; 8]) -> (r: Scalar)
    ensures
        r.wf(),
        r@ == draw_fr(seed@),
{
    let mut rng = ChaChaRng::from_seed(&seed[..]);
    let f: Fr = Rand::rand(&mut rng);
    Scalar { limbs: f.into_repr().0 }
}

/// One `G1` subgroup point drawn from the generator seeded with the given
/// words.
///
/// Relies on `ChaChaRng::from_seed` and the `pairing` crate's `Rand`
/// instance for `G1`, which scales by the cofactor into the prime-order
/// subgroup: the point drawn depends on the seed alone.
#[verifier::external_body]
fn chacha_draw_g1(seed: &[u32; 8]) -> (r: G1)
    ensures
        g1_ok(r),
        g1_dlog(r) == draw_g1(seed@),
{
    let mut rng = ChaChaRng::from_seed(&seed[..]);
    Rand::rand(&mut rng)
}

/// One `G2` subgroup point drawn from the generator seeded with the given
/// words.
///
/// Relies on `ChaChaRng::from_seed` and the `pairing` crate's `Rand`
/// instance for `G2`, which scales by the cofactor into the prime-order
/// subgroup: the point drawn depends on the seed alone.
#[verifier::external_body]
fn chacha_draw_g2(seed: &[u32; 8]) -> (r: G2)
    ensures
        g2_ok(r),
        g2_dlog(r) == draw_g2(seed@),
{
    let mut rng = ChaChaRng::from_seed(&seed[..]);
    Rand::rand(&mut rng)
}

/// The first `n` keystream bytes of the generator seeded with the given
/// words.
///
/// Relies on `ChaChaRng::from_seed` and `Rng::fill_bytes`: the stream is a
/// function of the seed alone, and a shorter read is a prefix of a longer
/// one.
#[verifier::external_body]
fn chacha_stream(seed: &[u32; 8], n: usize) -> (r: Vec<u8>)
    ensures
        r@.len() == n,
        forall|i: int| 0 <= i < n ==> r@[i] == stream_byte(seed@, i),
{
    let mut rng = ChaChaRng::from_seed(&seed[..]);
    let mut out = vec![0u8; n];
    rng.fill_bytes(&mut out);
    out
}

/// Packs a 32-byte digest into eight little-endian 32-bit words.
fn seed_words(d: &[u8; 32]) -> (r: [u32; 8])
    ensures
        r@ == words_of(d@),
{
    let mut out = [0u32; 8];
    let mut i: usize = 0;
    while i < 8
        invariant
            0 <= i <= 8,
            out@.len() == 8,
            forall|j: int| 0 <= j < i ==> out@[j] == words_of(d@)[j],
        decreases 8 - i,
    {
        let w: u32 = d[4 * i] as u32 + 0x100u32 * d[4 * i + 1] as u32
            + 0x1_0000u32 * d[4 * i + 2] as u32 + 0x100_0000u32 * d[4 * i + 3] as u32;
        out[i] = w;
        i += 1;
    }
    proof {
        assert(out@ =~= words_of(d@));
    }
    out
}

/// Hashes a byte string to a scalar.
pub fn hash_fr(msg: &[u8]) -> (r: Scalar)
    ensures
        r.wf(),
        r@ == hash_fr_spec(msg@),
{
    let digest = sha3_digest(msg);
    let words = seed_words(&digest);
    chacha_draw_fr(&words)
}

/// Hashes a byte string to a point of the prime-order subgroup of `G1`.
pub fn hash_g1(msg: &[u8]) -> (r: G1)
    ensures
        g1_ok(r),
        g1_dlog(r) == hash_g1_spec(msg@),
{
    let digest = sha3_digest(msg);
    let words = seed_words(&digest);
    chacha_draw_g1(&words)
}

/// Hashes a byte string to a point of the prime-order subgroup of `G2`.
pub fn hash_g2(msg: &[u8]) -> (r: G2)
    ensures
        g2_ok(r),
        g2_dlog(r) == hash_g2_spec(msg@),
{
    let digest = sha3_digest(msg);
    let words = seed_words(&digest);
    chacha_draw_g2(&words)
}

/// The hash input mixed from a message and a group element representation:
/// a long message is first reduced to its digest, and the representation is
/// appended.
fn mix_bytes(msg: &[u8], rb: &[u8]) -> (r: Vec<u8>)
    ensures
        r@ == mix_spec(msg@, rb@),
{
    let mut out: Vec<u8> = Vec::new();
    if msg.len() > 64 {
        let digest = sha3_digest(msg);
        let mut i: usize = 0;
        while i < 32
            invariant
                0 <= i <= 32,
                digest@ == digest_of(msg@),
                digest@.len() == 32,
                out@ =~= digest@.take(i as int),
            decreases 32 - i,
        {
            out.push(digest[i]);
            i += 1;
        }
        proof {
            assert(out@ =~= digest_of(msg@));
        }
    } else {
        let mut i: usize = 0;
        while i < msg.len()
            invariant
                0 <= i <= msg@.len(),
                out@ =~= msg@.take(i as int),
            decreases msg@.len() - i,
        {
            out.push(msg[i]);
            i += 1;
        }
        proof {
            assert(out@ =~= msg@);
        }
    }
    let ghost head: Seq<u8> = out@;
    let mut j: usize = 0;
    while j < rb.len()
        invariant
            0 <= j <= rb@.len(),
            out@ =~= head + rb@.take(j as int),
        decreases rb@.len() - j,
    {
        out.push(rb[j]);
        j += 1;
    }
    proof {
        assert(out@ =~= mix_spec(msg@, rb@));
    }
    out
}

/// Hashes a `G2` element together with a message to a `G1` subgroup point.
pub fn hash_g1_m(g2: &G2, msg: &[u8]) -> (r: G1)
    requires
        g2_ok(*g2),
    ensures
        g1_ok(r),
        g1_dlog(r) == hash_g1_spec(mix_spec(msg@, g2_repr(g2_dlog(*g2)))),
{
    let rb = g2_to_bytes(g2);
    let mixed = mix_bytes(msg, rb.as_slice());
    hash_g1(mixed.as_slice())
}

/// Hashes a `G1` element together with a message to a `G2` subgroup point.
pub fn hash_g1_g2(g1: &G1, msg: &[u8]) -> (r: G2)
    requires
        g1_ok(*g1),
    ensures
        g2_ok(r),
        g2_dlog(r) == hash_g2_spec(mix_spec(msg@, g1_repr(g1_dlog(*g1)))),
{
    let rb = g1_to_bytes(g1);
    let mixed = mix_bytes(msg, rb.as_slice());
    hash_g2(mixed.as_slice())
}

/// Hashes a `G2` element together with a message to a `G2` subgroup point.
pub fn hash_g1_g2_new(g2: &G2, msg: &[u8]) -> (r: G2)
    requires
        g2_ok(*g2),
    ensures
        g2_ok(r),
        g2_dlog(r) == hash_g2_spec(mix_spec(msg@, g2_repr(g2_dlog(*g2)))),
{
    let rb = g2_to_bytes(g2);
    let mixed = mix_bytes(msg, rb.as_slice());
    hash_g2(mixed.as_slice())
}

/// Combines the payload, by exclusive or, with the keystream seeded from
/// the digest of the seed material.
pub(crate) fn xor_with_seed(seed_material: &[u8], data: &[u8]) -> (r: Vec<u8>)
    ensures
        r@ == mask_bytes(seed_material@, data@),
{
    let digest = sha3_digest(seed_material);
    let words = seed_words(&digest);
    let stream = chacha_stream(&words, data.len());
    let mut out: Vec<u8> = Vec::new();
    let mut i: usize = 0;
    while i < data.len()
        invariant
            0 <= i <= data@.len(),
            stream@.len() == data@.len(),
            words@ == words_of(digest_of(seed_material@)),
            forall|k: int| 0 <= k < data@.len() ==> stream@[k] == stream_byte(words@, k),
            out@.len() == i,
            forall|k: int| 0 <= k < i ==> out@[k] == (data@[k] ^ stream_byte(
                words_of(digest_of(seed_material@)), k)),
        decreases data@.len() - i,
    {
        out.push(data[i] ^ stream[i]);
        i += 1;
    }
    proof {
        assert(out@ =~= mask_bytes(seed_material@, data@));
    }
    out
}

/// Masking twice with the same seed material returns the payload: each byte
/// is combined with the same keystream byte, and exclusive or is an
/// involution.
pub proof fn lemma_mask_involution(seed_material: Seq<u8>, data: Seq<u8>)
    ensures
        mask_bytes(seed_material, mask_bytes(seed_material, data)) =~= data,
{
    let once = mask_bytes(seed_material, data);
    let twice = mask_bytes(seed_material, once);
    assert forall|i: int| 0 <= i < data.len() implies twice[i] == data[i] by {
        let k = stream_byte(words_of(digest_of(seed_material)), i);
        let d = data[i];
        assert((d ^ k) ^ k == d) by (bit_vector);
    }
}

} // verus!
