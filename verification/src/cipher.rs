//! Ciphertexts, decryption shares, and the identity-based transform's
//! mathematical description.
//!
//! A ciphertext is the triple `(U, V, W)`: `U` is the sender's ephemeral
//! `G2` element, `V` the masked payload of the plaintext's length, and `W`
//! an integrity tag binding `U` and `V`.  Any party can check the validity
//! predicate without secrets, and every decryption path refuses a triple
//! that fails it.

use vstd::prelude::*;
use vstd::arithmetic::div_mod::{lemma_mul_mod_noop_general, lemma_small_mod};
use vstd::arithmetic::mul::lemma_mul_basics;
use vstd::utf8::encode_utf8;
use crate::field::fr_order;
use crate::group::{
    g1_ok, g1_dlog, g2_ok, g2_dlog, g2_repr, g2_one, pairing_g1_g2, gt_eq, gt_str, gt_to_string,
};
use crate::hashing::{hash_g1_spec, mix_spec, mask_bytes, lemma_mask_involution, hash_g1_m,
    xor_with_seed};
use pairing::bls12_381::{G1, G2};

verus! {

/// An encrypted message: the ephemeral element `U`, the masked payload `V`,
/// and the integrity tag `W`.
pub struct Ciphertext(pub G2, pub Vec<u8>, pub G1);

impl View for Ciphertext {
    type V = (nat, Seq<u8>, nat);

    open spec fn view(&self) -> (nat, Seq<u8>, nat) {
        (g2_dlog(self.0), self.1@, g1_dlog(self.2))
    }
}

impl Ciphertext {
    /// Both group elements are well-formed subgroup members.
    pub open spec fn wf(self) -> bool {
        g2_ok(self.0) && g1_ok(self.2)
    }

    /// True exactly when the triple satisfies the integrity predicate: the
    /// pairing of `W` with the generator equals the pairing of the hash of
    /// `U` and `V` with `U`.  This check is necessary to prevent
    /// chosen-ciphertext attacks, and decryption refuses on failure.
    pub fn verify(&self) -> (r: bool)
        requires
            self.wf(),
        ensures
            r == ct_valid(self@),
    {
        let gen = g2_one();
        let hash = hash_g1_m(&self.0, self.1.as_slice());
        let lhs = pairing_g1_g2(&self.2, &gen);
        let rhs = pairing_g1_g2(&hash, &self.0);
        proof {
            lemma_mul_basics(g1_dlog(self.2) as int);
            lemma_small_mod(g1_dlog(self.2), fr_order());
        }
        gt_eq(&lhs, &rhs)
    }

    /// An owned copy of the triple.
    pub fn dup(&self) -> (r: Ciphertext)
        ensures
            r@ == self@,
            r.wf() == self.wf(),
    {
        let mut v: Vec<u8> = Vec::new();
        let mut i: usize = 0;
        while i < self.1.len()
            invariant
                0 <= i <= self.1@.len(),
                v@ =~= self.1@.take(i as int),
            decreases self.1@.len() - i,
        {
            v.push(self.1[i]);
            i += 1;
        }
        proof {
            assert(v@ =~= self.1@);
        }
        Ciphertext(self.0, v, self.2)
    }

    /// True when both triples hold the same values.
    pub fn same_as(&self, other: &Ciphertext) -> (r: bool)
        requires
            self.wf(),
            other.wf(),
        ensures
            r == (self@ == other@),
    {
        if !crate::group::g2_eq(&self.0, &other.0) {
            return false;
        }
        if !crate::group::g1_eq(&self.2, &other.2) {
            return false;
        }
        if self.1.len() != other.1.len() {
            proof {
                assert(self@.1.len() != other@.1.len());
            }
            return false;
        }
        let mut i: usize = 0;
        while i < self.1.len()
            invariant
                self.1@.len() == other.1@.len(),
                0 <= i <= self.1@.len(),
                forall|k: int| 0 <= k < i ==> self.1@[k] == other.1@[k],
            decreases self.1@.len() - i,
        {
            if self.1[i] != other.1[i] {
                return false;
            }
            i += 1;
        }
        proof {
            assert(self.1@ =~= other.1@);
        }
        true
    }
}

/// One authority's partial decryption key for one identity: the identity's
/// `G1` hash raised to the authority's secret share.
pub struct DecryptionShare(pub G1);

impl View for DecryptionShare {
    type V = nat;

    open spec fn view(&self) -> nat {
        g1_dlog(self.0)
    }
}

impl DecryptionShare {
    /// The element is a well-formed subgroup member.
    pub open spec fn wf(self) -> bool {
        g1_ok(self.0)
    }

    /// An owned copy of the share.
    pub fn dup(&self) -> (r: DecryptionShare)
        ensures
            r@ == self@,
            r.wf() == self.wf(),
    {
        DecryptionShare(self.0)
    }

    /// True when both shares hold the same element.
    pub fn same_as(&self, other: &DecryptionShare) -> (r: bool)
        requires
            self.wf(),
            other.wf(),
        ensures
            r == (self@ == other@),
    {
        crate::group::g1_eq(&self.0, &other.0)
    }
}

/// The integrity predicate over a ciphertext's view: the tag's exponent
/// equals the hash of `U` and `V` scaled by `U`'s exponent.
pub open spec fn ct_valid(ct: (nat, Seq<u8>, nat)) -> bool {
    ct.2 == (hash_g1_spec(mix_spec(ct.1, g2_repr(ct.0))) * ct.0) % fr_order()
}

/// The seed material that masks a payload: the decimal rendering of the
/// shared pairing value, as bytes.
pub open spec fn gid_seed(gid: nat) -> Seq<u8> {
    encode_utf8(gt_str(gid))
}

/// The payload masked, or unmasked, under the shared pairing value with
/// exponent `gid`.
pub open spec fn mask_with_gid(gid: nat, data: Seq<u8>) -> Seq<u8> {
    mask_bytes(gid_seed(gid), data)
}

/// The ciphertext view produced by encrypting `m` to identity bytes `idb`
/// under master public key exponent `p` with ephemeral scalar `r`.
pub open spec fn encrypt_view(p: nat, idb: Seq<u8>, m: Seq<u8>, r: nat) -> (nat, Seq<u8>, nat) {
    let q = hash_g1_spec(idb);
    let gid = (((q * r) % fr_order()) * p) % fr_order();
    let v = mask_with_gid(gid, m);
    let w = (hash_g1_spec(mix_spec(v, g2_repr(r))) * r) % fr_order();
    (r, v, w)
}

/// A share for identity bytes `idb` matches a public share exponent when it
/// is the identity's hash scaled by that exponent.
pub open spec fn share_matches(idb: Seq<u8>, share: nat, pk_share: nat) -> bool {
    share == (hash_g1_spec(idb) * pk_share) % fr_order()
}

/// Masks the payload under a pairing value: the executable counterpart of
/// [`mask_with_gid`].
pub(crate) fn mask_with_gt(gid: &pairing::bls12_381::Fq12, data: &[u8]) -> (r: Vec<u8>)
    requires
        crate::group::gt_ok(*gid),
    ensures
        r@ == mask_with_gid(crate::group::gt_dlog(*gid), data@),
{
    let seed = gt_to_string(gid);
    xor_with_seed(seed.as_str().as_bytes(), data)
}

/// Honest encryption satisfies the integrity predicate: the tag is built as
/// the hash of `U` and `V` scaled by the same ephemeral scalar that built
/// `U`.
pub proof fn lemma_encrypt_valid(p: nat, idb: Seq<u8>, m: Seq<u8>, r: nat)
    requires
        r < fr_order(),
    ensures
        ct_valid(encrypt_view(p, idb, m, r)),
{
}

/// The heart of threshold decryption: combining with the true master
/// decryption value recovers the plaintext.  If `sid` is the identity's
/// hash scaled by the master secret `p`, then unmasking the encrypted
/// payload under the pairing of `sid` with the ephemeral element yields the
/// message: the sender's and the combiner's pairing values share one
/// exponent, by bilinearity, and masking is an involution.
pub proof fn lemma_threshold_roundtrip(p: nat, idb: Seq<u8>, m: Seq<u8>, r: nat, sid: nat)
    requires
        p < fr_order(),
        r < fr_order(),
        sid == (hash_g1_spec(idb) * p) % fr_order(),
    ensures
        mask_with_gid((sid * encrypt_view(p, idb, m, r).0) % fr_order(),
            encrypt_view(p, idb, m, r).1) =~= m,
{
    let q = hash_g1_spec(idb);
    let mo = fr_order() as int;
    let qi = q as int;
    let pi = p as int;
    let ri = r as int;
    lemma_mul_mod_noop_general(qi * pi, ri, mo);
    lemma_mul_mod_noop_general(qi * ri, pi, mo);
    assert((qi * pi) * ri == (qi * ri) * pi) by (nonlinear_arith);
    assert((sid * r) % fr_order() == (((q * r) % fr_order()) * p) % fr_order());
    lemma_mask_involution(gid_seed((((q * r) % fr_order()) * p) % fr_order()), m);
}

/// Share authenticity, honest direction: the share an authority derives
/// from its own secret exponent matches the public share with that same
/// exponent.
pub proof fn lemma_honest_share_matches(idb: Seq<u8>, sk: nat)
    ensures
        share_matches(idb, (hash_g1_spec(idb) * sk) % fr_order(), sk),
{
}

} // verus!
