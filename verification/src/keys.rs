//! Master keys, per-authority key shares, and the fixed group parameters.
//!
//! A secret key wraps a single field element, heap-allocated so that no
//! stack copy survives, and its storage is overwritten with zeros before
//! release on every path.  Public keys and public key shares are `G2`
//! elements and serialize to a fixed-width compressed representation.

use vstd::prelude::*;
use vstd::arithmetic::div_mod::lemma_small_mod;
use vstd::arithmetic::mul::lemma_mul_basics;
use vstd::string::StringExecFns;
use vstd::string::StringSliceAdditionalSpecFns;
use crate::cipher::{Ciphertext, DecryptionShare, ct_valid, encrypt_view, mask_with_gt,
    share_matches};
use crate::error::FromBytesError;
use crate::field::{Scalar, fr_order, fr_random, fr_wipe};
use crate::group::{
    g1_ok, g1_dlog, g1_mul, g1_one, g2_ok, g2_dlog, g2_eq, g2_from_bytes, g2_hex, g2_hex_str,
    g2_mul, g2_one, g2_repr, g2_decode, g2_to_bytes, pairing_g1_g2,
};
use crate::hashing::{hash_g1, hash_g1_m, hash_g1_spec, mask_bytes, xor_with_seed};
use pairing::bls12_381::{G1, G2};

verus! {

/// The size of a public key's compressed representation in bytes.
pub const PK_SIZE: usize = 96;

/// The master public key: the `G2` generator raised to the master secret.
pub struct PkgPublicKey(pub G2);

impl View for PkgPublicKey {
    type V = nat;

    open spec fn view(&self) -> nat {
        g2_dlog(self.0)
    }
}

impl PkgPublicKey {
    /// The element is a well-formed subgroup member.
    pub open spec fn wf(self) -> bool {
        g2_ok(self.0)
    }

    /// An owned copy of the key.
    pub fn dup(&self) -> (r: PkgPublicKey)
        ensures
            r@ == self@,
            r.wf() == self.wf(),
    {
        PkgPublicKey(self.0)
    }

    /// True when both keys hold the same element.
    pub fn same_as(&self, other: &PkgPublicKey) -> (r: bool)
        requires
            self.wf(),
            other.wf(),
        ensures
            r == (self@ == other@),
    {
        g2_eq(&self.0, &other.0)
    }

    /// Encrypts the message to the identity under this master public key.
    ///
    /// The ciphertext is built from one uniformly drawn ephemeral scalar;
    /// for some such scalar the result is exactly the encryption transform's
    /// output, and it always satisfies the integrity predicate.
    pub fn encrypt_new(&self, msg: &[u8], id: &str) -> (r: Ciphertext)
        requires
            self.wf(),
        ensures
            r.wf(),
            ct_valid(r@),
            r@.1.len() == msg@.len(),
            exists|rr: nat| rr < fr_order() && r@ == encrypt_view(self@, id.spec_bytes(), msg@, rr),
    {
        let r = fr_random();
        let gen = g2_one();
        let u = g2_mul(&gen, &r);
        let qid = hash_g1(id.as_bytes());
        let qid_r = g1_mul(&qid, &r);
        let gid = pairing_g1_g2(&qid_r, &self.0);
        let v = mask_with_gt(&gid, msg);
        let w_hash = hash_g1_m(&u, v.as_slice());
        let w = g1_mul(&w_hash, &r);
        let ct = Ciphertext(u, v, w);
        proof {
            lemma_mul_basics(r@ as int);
            lemma_small_mod(r@, fr_order());
            lemma_mul_basics(hash_g1_spec(id.spec_bytes()) as int);
            assert(ct@ == encrypt_view(self@, id.spec_bytes(), msg@, r@));
        }
        ct
    }

    /// Returns the key with the given representation, if the bytes decode
    /// to a subgroup element.
    pub fn from_bytes(bytes: &[u8; PK_SIZE]) -> (r: Result<PkgPublicKey, FromBytesError>)
        ensures
            match g2_decode(bytes@) {
                Some(e) => r.is_ok() && r.unwrap().wf() && r.unwrap()@ == e,
                None => r == Err::<PkgPublicKey, FromBytesError>(FromBytesError::Invalid),
            },
    {
        match g2_from_bytes(bytes) {
            Some(p) => Ok(PkgPublicKey(p)),
            None => Err(FromBytesError::Invalid),
        }
    }

    /// The compressed byte representation of the public key; decoding it
    /// returns this key.
    pub fn to_bytes(&self) -> (r: [u8; PK_SIZE])
        requires
            self.wf(),
        ensures
            r@ == g2_repr(self@),
            g2_decode(r@) == Some(self@),
    {
        g2_to_bytes(&self.0)
    }
}

/// One authority's public key share: the commitment evaluated at the
/// authority's evaluation point.
pub struct PkgPublicKeyShare(pub PkgPublicKey);

impl View for PkgPublicKeyShare {
    type V = nat;

    open spec fn view(&self) -> nat {
        self.0@
    }
}

impl PkgPublicKeyShare {
    /// The element is a well-formed subgroup member.
    pub open spec fn wf(self) -> bool {
        self.0.wf()
    }

    /// An owned copy of the share.
    pub fn dup(&self) -> (r: PkgPublicKeyShare)
        ensures
            r@ == self@,
            r.wf() == self.wf(),
    {
        PkgPublicKeyShare(self.0.dup())
    }

    /// True when both shares hold the same element.
    pub fn same_as(&self, other: &PkgPublicKeyShare) -> (r: bool)
        requires
            self.wf(),
            other.wf(),
        ensures
            r == (self@ == other@),
    {
        self.0.same_as(&other.0)
    }

    /// True exactly when the ciphertext satisfies the integrity predicate.
    /// The check involves no secret and is exposed here purely as a
    /// convenience entry point.
    pub fn verify_ciphertext(&self, ct: &Ciphertext, g_parameter: &GParameter) -> (r: bool)
        requires
            ct.wf(),
        ensures
            r == ct_valid(ct@),
    {
        ct.verify()
    }

    /// True exactly when the partial private key is the identity's hash
    /// raised to this share's exponent: the pairing of the partial key with
    /// the generator must equal the pairing of the identity's hash with the
    /// public share.  No secret is needed.
    pub fn verify_partial_private_key(
        &self,
        id: &str,
        partial_private_key: &DecryptionShare,
        g_parameter: &GParameter,
    ) -> (r: bool)
        requires
            self.wf(),
            partial_private_key.wf(),
        ensures
            r == share_matches(id.spec_bytes(), partial_private_key@, self@),
    {
        let hash = hash_g1(id.as_bytes());
        let gen = g2_one();
        let lhs = pairing_g1_g2(&partial_private_key.0, &gen);
        let rhs = pairing_g1_g2(&hash, &(self.0).0);
        proof {
            lemma_mul_basics(partial_private_key@ as int);
            lemma_small_mod(partial_private_key@, fr_order());
        }
        crate::group::gt_eq(&lhs, &rhs)
    }

    /// Returns the key share with the given representation, if the bytes
    /// decode to a subgroup element.
    pub fn from_bytes(bytes: &[u8; PK_SIZE]) -> (r: Result<PkgPublicKeyShare, FromBytesError>)
        ensures
            match g2_decode(bytes@) {
                Some(e) => r.is_ok() && r.unwrap().wf() && r.unwrap()@ == e,
                None => r == Err::<PkgPublicKeyShare, FromBytesError>(FromBytesError::Invalid),
            },
    {
        match PkgPublicKey::from_bytes(bytes) {
            Ok(pk) => Ok(PkgPublicKeyShare(pk)),
            Err(e) => Err(e),
        }
    }

    /// The compressed byte representation of the public key share.
    pub fn to_bytes(&self) -> (r: [u8; PK_SIZE])
        requires
            self.wf(),
        ensures
            r@ == g2_repr(self@),
            g2_decode(r@) == Some(self@),
    {
        self.0.to_bytes()
    }
}

/// A secret key; wraps a single field element, heap-allocated so that no
/// stack copy of the secret survives a move.  The storage is overwritten
/// with zeros before release.
pub struct SecretKey(pub Box<Scalar>);

impl View for SecretKey {
    type V = nat;

    open spec fn view(&self) -> nat {
        (*self.0)@
    }
}

impl SecretKey {
    /// The scalar is reduced.
    pub open spec fn wf(self) -> bool {
        (*self.0).wf()
    }

    /// Creates a new secret key by moving a field element onto the heap.
    /// The referenced scalar is overwritten with zeros after it has been
    /// copied, so the caller's storage never retains the secret.
    pub fn from_mut(fr: &mut Scalar) -> (r: SecretKey)
        requires
            old(fr).wf(),
        ensures
            r.wf(),
            r@ == old(fr)@,
            final(fr)@ == 0,
    {
        let copied = *fr;
        fr_wipe(fr);
        SecretKey(Box::new(copied))
    }

    /// Creates a new secret key drawn uniformly from the system's entropy
    /// source.
    pub fn random() -> (r: SecretKey)
        ensures
            r.wf(),
    {
        let mut fr = fr_random();
        SecretKey::from_mut(&mut fr)
    }

    /// Overwrites the secret's backing storage with zeros.
    pub fn zeroize(&mut self)
        ensures
            final(self).wf(),
            final(self)@ == 0,
    {
        fr_wipe(&mut self.0)
    }

    /// The matching public key: the `G2` generator raised to this secret.
    pub fn public_key(&self) -> (r: PkgPublicKey)
        requires
            self.wf(),
        ensures
            r.wf(),
            r@ == self@,
    {
        let gen = g2_one();
        let pk = g2_mul(&gen, &self.0);
        proof {
            lemma_mul_basics(self@ as int);
            lemma_small_mod(self@, fr_order());
        }
        PkgPublicKey(pk)
    }

    /// Decrypts with the full secret, or returns `None` exactly when the
    /// ciphertext fails the integrity predicate.  The mask is derived from
    /// the ephemeral element raised to the secret; this is a separate,
    /// non-threshold mode whose mask derivation is not interchangeable with
    /// the threshold path's.
    pub fn decrypt(&self, ct: &Ciphertext) -> (r: Option<Vec<u8>>)
        requires
            self.wf(),
            ct.wf(),
        ensures
            r.is_some() <==> ct_valid(ct@),
            r.is_some() ==> r.unwrap()@ == mask_bytes(
                g2_repr((ct@.0 * self@) % fr_order()), ct@.1),
    {
        if !ct.verify() {
            return None;
        }
        let g = g2_mul(&ct.0, &self.0);
        let gb = g2_to_bytes(&g);
        Some(xor_with_seed(gb.as_slice(), ct.1.as_slice()))
    }

    /// True when both secret keys hold the same scalar.
    pub fn eq_value(&self, other: &SecretKey) -> (r: bool)
        ensures
            r == (self@ == other@),
    {
        (*self.0).eq_value(&*other.0)
    }

    /// A non-redacted description of the key: unlike its debug rendering,
    /// it leaks material derived from the secret.
    pub fn reveal_secret(&self) -> (r: String)
        requires
            self.wf(),
        ensures
            r@ == "SecretKey("@ + g2_hex(self@) + ")"@,
    {
        let pk = self.public_key();
        let hex = g2_hex_str(&pk.0);
        let head = String::from_str("SecretKey(");
        head.concat(hex.as_str()).concat(")")
    }
}

/// Creates a secret key containing the zero field element.
impl Default for SecretKey {
    fn default() -> (r: Self)
        ensures
            r.wf(),
            r@ == 0,
    {
        let mut fr = Scalar::zero();
        SecretKey::from_mut(&mut fr)
    }
}

/// Cloning is explicit and produces a freshly owned container; the stack
/// copy made on the way is scrubbed.
impl Clone for SecretKey {
    fn clone(&self) -> (r: Self)
        ensures
            r@ == self@,
            r.wf() == self.wf(),
    {
        let mut fr = *self.0;
        let boxed = Box::new(fr);
        fr_wipe(&mut fr);
        SecretKey(boxed)
    }
}

impl PartialEq for SecretKey {
    /// Two secret keys are equal when they hold the same field element.
    fn eq(&self, other: &SecretKey) -> (r: bool) {
        (*self.0).eq_value(&*other.0)
    }
}

impl vstd::std_specs::cmp::PartialEqSpecImpl for SecretKey {
    open spec fn obeys_eq_spec() -> bool {
        true
    }

    open spec fn eq_spec(&self, other: &SecretKey) -> bool {
        self@ == other@
    }
}

/// Every exit path scrubs the secret: the container's storage is
/// overwritten with zeros when it is released.
impl Drop for SecretKey {
    fn drop(&mut self)
        opens_invariants none
        no_unwind
    {
        fr_wipe(&mut self.0)
    }
}

/// A secret key share: one authority's evaluation of the secret polynomial,
/// with the same storage hygiene as [`SecretKey`].
pub struct SecretKeyShare(pub SecretKey);

impl View for SecretKeyShare {
    type V = nat;

    open spec fn view(&self) -> nat {
        self.0@
    }
}

impl SecretKeyShare {
    /// The scalar is reduced.
    pub open spec fn wf(self) -> bool {
        self.0.wf()
    }

    /// Creates a new secret key share by moving a field element onto the
    /// heap; the referenced scalar is overwritten with zeros.
    pub fn from_mut(fr: &mut Scalar) -> (r: SecretKeyShare)
        requires
            old(fr).wf(),
        ensures
            r.wf(),
            r@ == old(fr)@,
            final(fr)@ == 0,
    {
        SecretKeyShare(SecretKey::from_mut(fr))
    }

    /// The matching public key share.
    pub fn public_key_share(&self) -> (r: PkgPublicKeyShare)
        requires
            self.wf(),
        ensures
            r.wf(),
            r@ == self@,
    {
        PkgPublicKeyShare(self.0.public_key())
    }

    /// Issues this authority's partial private key for the identity: a pure
    /// function of the share and the identity, with no side effects.
    pub fn obtain_partial_private_key(&self, id: &str) -> (r: Option<DecryptionShare>)
        requires
            self.wf(),
        ensures
            r.is_some(),
            r.unwrap().wf(),
            share_matches(id.spec_bytes(), r.unwrap()@, self@),
    {
        Some(self.decrypt_share_no_verify_new(id))
    }

    /// Derives the partial private key without any ciphertext validation:
    /// the identity's `G1` hash raised to this share's scalar.
    pub fn decrypt_share_no_verify_new(&self, id: &str) -> (r: DecryptionShare)
        requires
            self.wf(),
        ensures
            r.wf(),
            share_matches(id.spec_bytes(), r@, self@),
    {
        let hash = hash_g1(id.as_bytes());
        DecryptionShare(g1_mul(&hash, &(self.0).0))
    }

    /// A non-redacted description of the share: unlike its debug rendering,
    /// it leaks material derived from the secret.
    pub fn reveal_secret(&self) -> (r: String)
        requires
            self.wf(),
        ensures
            r@ == "SecretKeyShare("@ + g2_hex(self@) + ")"@,
    {
        let pk = self.0.public_key();
        let hex = g2_hex_str(&pk.0);
        let head = String::from_str("SecretKeyShare(");
        head.concat(hex.as_str()).concat(")")
    }
}

/// Creates a secret key share containing the zero field element.
impl Default for SecretKeyShare {
    fn default() -> (r: Self)
        ensures
            r.wf(),
            r@ == 0,
    {
        SecretKeyShare(SecretKey::default())
    }
}

/// Cloning is explicit and produces a freshly owned container.
impl Clone for SecretKeyShare {
    fn clone(&self) -> (r: Self)
        ensures
            r@ == self@,
            r.wf() == self.wf(),
    {
        SecretKeyShare(self.0.clone())
    }
}

impl PartialEq for SecretKeyShare {
    /// Two shares are equal when they hold the same field element.
    fn eq(&self, other: &SecretKeyShare) -> (r: bool) {
        self.0 == other.0
    }
}

impl vstd::std_specs::cmp::PartialEqSpecImpl for SecretKeyShare {
    open spec fn obeys_eq_spec() -> bool {
        true
    }

    open spec fn eq_spec(&self, other: &SecretKeyShare) -> bool {
        self@ == other@
    }
}

/// The fixed group parameters: the generators of `G1` and `G2`.
pub struct GParameter(pub G1, pub G2);

impl GParameter {
    /// Both elements are the fixed generators.
    pub open spec fn wf(self) -> bool {
        g1_ok(self.0) && g1_dlog(self.0) == 1 && g2_ok(self.1) && g2_dlog(self.1) == 1
    }

    /// Constructs the parameters from the standard generators.
    pub fn new() -> (r: GParameter)
        ensures
            r.wf(),
    {
        GParameter(g1_one(), g2_one())
    }

    /// The `G1` generator.
    pub fn g_1(&self) -> (r: G1)
        ensures
            g1_ok(r),
            g1_dlog(r) == 1,
    {
        g1_one()
    }

    /// The `G2` generator.
    pub fn g_2(&self) -> (r: G2)
        ensures
            g2_ok(r),
            g2_dlog(r) == 1,
    {
        g2_one()
    }

    /// An owned copy of the parameters.
    pub fn dup(&self) -> (r: GParameter)
        requires
            self.wf(),
        ensures
            r.wf(),
    {
        GParameter(self.0, self.1)
    }
}

} // verus!
