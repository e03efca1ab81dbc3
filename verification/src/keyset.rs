//! The master key sets: the secret polynomial's owner and its public image.
//!
//! A [`SecretKeySet`] owns the secret-sharing polynomial and derives a
//! secret key share for each authority by evaluation at the authority's
//! point.  A [`PkgPublicKeySet`] owns the matching commitment; it derives
//! every public key share, exposes the master public key, and combines
//! enough decryption shares into a plaintext by interpolation.

use vstd::prelude::*;
use vstd::string::StringSliceAdditionalSpecFns;
use crate::cipher::{Ciphertext, DecryptionShare, ct_valid, mask_with_gid, mask_with_gt};
use crate::error::Error;
use crate::field::fr_order;
use crate::group::{g1_ok, pairing_g1_g2};
use crate::interp::{
    eval_points, has_dup, interpolate, into_fr_plus_1, lagrange_sum, sample_models, Interpolable,
};
use crate::keys::{PkgPublicKey, PkgPublicKeyShare, SecretKey, SecretKeyShare};
use crate::poly::{poly_eval, Commitment, Poly};
use pairing::bls12_381::G1;

verus! {

/// The value reconstructed from the first `threshold + 1` samples: the sole
/// sample's model for a zero threshold, and the accumulated Lagrange sum
/// otherwise.
pub open spec fn interp_value(t: int, xs: Seq<nat>, ms: Seq<nat>) -> nat {
    if t == 0 {
        ms[0]
    } else {
        lagrange_sum(xs, ms, t + 1)
    }
}

/// The plaintext recovered by threshold decryption: the payload unmasked
/// under the pairing of the reconstructed decryption value with the
/// ciphertext's ephemeral element.
pub open spec fn threshold_plaintext(t: int, xs: Seq<nat>, ms: Seq<nat>, ct: (nat, Seq<u8>, nat))
    -> Seq<u8> {
    mask_with_gid((interp_value(t, xs, ms) * ct.0) % fr_order(), ct.1)
}

/// End-to-end correctness of threshold-one decryption.  Encrypt a message
/// under the master public key of a degree-one secret polynomial; take
/// honest decryption shares from any two distinct authorities, each
/// matching its own public key share; then, whenever interpolation's basis
/// denominators are invertible — which a successful decryption guarantees —
/// the threshold plaintext is exactly the message.  The sender's and the
/// combiners' masking values agree by bilinearity without either side
/// holding the master secret, and reconstruction at zero yields the master
/// decryption value.
pub proof fn lemma_threshold_one_decrypts(
    c: Seq<nat>,
    idb: Seq<u8>,
    msg: Seq<u8>,
    r: nat,
    xs: Seq<nat>,
    ms: Seq<nat>,
)
    requires
        c.len() == 2,
        c[0] < fr_order(),
        c[1] < fr_order(),
        r < fr_order(),
        crate::hashing::hash_g1_spec(idb) < fr_order(),
        xs.len() == 2,
        ms.len() == 2,
        xs[0] < fr_order(),
        xs[1] < fr_order(),
        xs[0] != xs[1],
        crate::cipher::share_matches(idb, ms[0], poly_eval(c, xs[0])),
        crate::cipher::share_matches(idb, ms[1], poly_eval(c, xs[1])),
        crate::interp::inv_mod(crate::interp::denom(xs, 0)) < fr_order(),
        (crate::interp::denom(xs, 0) * crate::interp::inv_mod(crate::interp::denom(xs, 0)))
            % fr_order() == 1,
        crate::interp::inv_mod(crate::interp::denom(xs, 1)) < fr_order(),
        (crate::interp::denom(xs, 1) * crate::interp::inv_mod(crate::interp::denom(xs, 1)))
            % fr_order() == 1,
    ensures
        threshold_plaintext(1, xs, ms, crate::cipher::encrypt_view(c[0], idb, msg, r)) =~= msg,
{
    let q = crate::hashing::hash_g1_spec(idb);
    let tail = c.subrange(1, 2);
    assert(tail.len() == 1 && tail[0] == c[1]);
    assert(tail.subrange(1, 1) =~= Seq::<nat>::empty());
    assert forall|x: nat| x < fr_order() implies #[trigger] poly_eval(c, x) == (c[0] + x * c[1])
        % fr_order() by {
        vstd::arithmetic::mul::lemma_mul_basics(x as int);
        vstd::arithmetic::div_mod::lemma_small_mod(c[1], fr_order());
        assert(poly_eval(tail, x) == (c[1] + x * poly_eval(tail.subrange(1, 1), x))
            % fr_order());
        assert(poly_eval(tail, x) == c[1]);
    }
    crate::interp::lemma_lagrange_degree_one(c[0], c[1], q, xs, ms);
    assert(interp_value(1, xs, ms) == (q * c[0]) % fr_order());
    crate::cipher::lemma_threshold_roundtrip(c[0], idb, msg, r, (q * c[0]) % fr_order());
}

/// A public key and the associated set of public key shares: the commitment
/// of a polynomial whose value at zero is the master key and whose value at
/// `i + 1` is key share number `i`.
pub struct PkgPublicKeySet {
    /// The commitment to the secret-sharing polynomial.
    pub commit: Commitment,
}

impl View for PkgPublicKeySet {
    type V = Seq<nat>;

    open spec fn view(&self) -> Seq<nat> {
        self.commit@
    }
}

impl PkgPublicKeySet {
    /// The commitment is well formed.
    pub open spec fn wf(self) -> bool {
        self.commit.wf()
    }

    /// Wraps a commitment as a public key set.
    pub fn from_commitment(commit: Commitment) -> (r: PkgPublicKeySet)
        ensures
            r@ == commit@,
            r.wf() == commit.wf(),
    {
        PkgPublicKeySet { commit }
    }

    /// An owned copy of the key set.
    pub fn dup(&self) -> (r: PkgPublicKeySet)
        requires
            self.wf(),
        ensures
            r.wf(),
            r@ =~= self@,
    {
        PkgPublicKeySet { commit: self.commit.dup() }
    }

    /// The threshold `t`: any set of `t + 1` decryption shares can be
    /// combined into a plaintext.
    pub fn threshold(&self) -> (r: usize)
        requires
            self.wf(),
        ensures
            r + 1 == self@.len(),
    {
        self.commit.degree()
    }

    /// The master public key: the commitment's constant term.
    pub fn public_key(&self) -> (r: PkgPublicKey)
        requires
            self.wf(),
        ensures
            r.wf(),
            r@ == self@[0],
    {
        PkgPublicKey(self.commit.coeff[0])
    }

    /// The `i`-th public key share: the commitment evaluated at `i + 1`.
    pub fn public_key_share(&self, i: u64) -> (r: PkgPublicKeyShare)
        requires
            self.wf(),
        ensures
            r.wf(),
            r@ == poly_eval(self@, (i + 1) as nat),
    {
        let x = into_fr_plus_1(i);
        let value = self.commit.evaluate(&x);
        PkgPublicKeyShare(crate::keys::PkgPublicKey(value))
    }

    /// Combines decryption shares to decrypt the ciphertext.
    ///
    /// The ciphertext must satisfy the integrity predicate, or decryption
    /// refuses with [`Error::InvalidCiphertext`]; fewer than `threshold + 1`
    /// shares fail with [`Error::NotEnoughShares`], and a duplicated index
    /// among the first `threshold + 1` with [`Error::DuplicateEntry`].  On
    /// success the plaintext is exactly the payload unmasked under the
    /// pairing of the interpolated decryption value with the ephemeral
    /// element.
    pub fn decrypt(&self, shares: &Vec<(u64, DecryptionShare)>, ct: &Ciphertext) -> (r: Result<
        Vec<u8>,
        Error,
    >)
        requires
            self.wf(),
            ct.wf(),
            forall|k: int| 0 <= k < shares@.len() ==> (#[trigger] shares@[k]).1.wf(),
        ensures
            ({
                let t = self@.len() - 1;
                let elems = shares@.map_values(|p: (u64, DecryptionShare)| (p.0, p.1.0));
                let xs = eval_points(elems, t);
                let ms = sample_models(elems, t);
                &&& (r == Err::<Vec<u8>, Error>(Error::InvalidCiphertext) <==> !ct_valid(ct@))
                &&& (r == Err::<Vec<u8>, Error>(Error::NotEnoughShares) <==> ct_valid(ct@)
                    && shares@.len() <= t)
                &&& (r == Err::<Vec<u8>, Error>(Error::DuplicateEntry) <==> ct_valid(ct@)
                    && shares@.len() > t && has_dup(xs))
                &&& (r is Ok <==> ct_valid(ct@) && shares@.len() > t && !has_dup(xs))
                &&& (r is Ok ==> r.unwrap()@ == threshold_plaintext(t, xs, ms, ct@))
                &&& (r is Ok ==> forall|q: int| 0 <= q < t + 1 ==> crate::interp::inv_mod(
                    #[trigger] crate::interp::denom(xs, q)) < fr_order() && (
                    crate::interp::denom(xs, q) * crate::interp::inv_mod(
                    crate::interp::denom(xs, q))) % fr_order() == 1)
            }),
    {
        let ghost t = self@.len() - 1;
        if !ct.verify() {
            return Err(Error::InvalidCiphertext);
        }
        let mut samples: Vec<(u64, G1)> = Vec::new();
        let mut k: usize = 0;
        while k < shares.len()
            invariant
                forall|q: int| 0 <= q < shares@.len() ==> (#[trigger] shares@[q]).1.wf(),
                0 <= k <= shares@.len(),
                samples@.len() == k,
                forall|q: int| 0 <= q < k ==> #[trigger] samples@[q]
                    == (shares@[q].0, shares@[q].1.0),
            decreases shares@.len() - k,
        {
            let share_ref = &shares[k];
            samples.push((share_ref.0, share_ref.1.0));
            k += 1;
        }
        proof {
            assert(samples@ =~= shares@.map_values(|p: (u64, DecryptionShare)| (p.0, p.1.0)));
            assert(forall|q: int| 0 <= q < samples@.len() ==> g1_ok(
                (#[trigger] samples@[q]).1));
        }
        let threshold = self.threshold();
        let sid = match interpolate(threshold, &samples) {
            Ok(sid) => sid,
            Err(e) => {
                return Err(e);
            },
        };
        let gid = pairing_g1_g2(&sid, &ct.0);
        let c = mask_with_gt(&gid, ct.1.as_slice());
        Ok(c)
    }
}

impl From<Commitment> for PkgPublicKeySet {
    /// Wraps a commitment as a public key set.
    fn from(commit: Commitment) -> (r: PkgPublicKeySet) {
        PkgPublicKeySet { commit }
    }
}

impl vstd::std_specs::convert::FromSpecImpl<Commitment> for PkgPublicKeySet {
    open spec fn obeys_from_spec() -> bool {
        true
    }

    open spec fn from_spec(commit: Commitment) -> PkgPublicKeySet {
        PkgPublicKeySet { commit }
    }
}

/// A secret key and the associated set of secret key shares: a polynomial
/// whose value at zero is the master key and whose value at `i + 1` is key
/// share number `i`.
pub struct SecretKeySet {
    /// The secret-sharing polynomial.
    pub poly: Poly,
}

impl View for SecretKeySet {
    type V = Seq<nat>;

    open spec fn view(&self) -> Seq<nat> {
        self.poly@
    }
}

impl SecretKeySet {
    /// The polynomial is well formed.
    pub open spec fn wf(self) -> bool {
        self.poly.wf()
    }

    /// Wraps a polynomial as a secret key set.
    pub fn from_poly(poly: Poly) -> (r: SecretKeySet)
        ensures
            r@ == poly@,
            r.wf() == poly.wf(),
    {
        SecretKeySet { poly }
    }

    /// Creates a set of secret key shares with a uniformly drawn
    /// polynomial, where any `threshold + 1` of them can collaboratively
    /// decrypt.  The threshold must be representable;
    /// [`SecretKeySet::try_random`] reports the failure instead.
    pub fn random(threshold: usize) -> (r: SecretKeySet)
        requires
            threshold < usize::MAX,
        ensures
            r.wf(),
            r@.len() == threshold + 1,
    {
        SecretKeySet { poly: Poly::random(threshold) }
    }

    /// Creates a set of secret key shares, or fails with
    /// [`Error::DegreeTooHigh`] exactly when the threshold cannot be
    /// represented.
    pub fn try_random(threshold: usize) -> (r: Result<SecretKeySet, Error>)
        ensures
            threshold == usize::MAX <==> r is Err,
            r is Err ==> r == Err::<SecretKeySet, Error>(Error::DegreeTooHigh),
            r is Ok ==> r.unwrap().wf() && r.unwrap()@.len() == threshold + 1,
    {
        match Poly::try_random(threshold) {
            Ok(poly) => Ok(SecretKeySet { poly }),
            Err(e) => Err(e),
        }
    }

    /// The threshold `t`: any set of `t + 1` decryption shares can be
    /// combined into a plaintext.
    pub fn threshold(&self) -> (r: usize)
        requires
            self.wf(),
        ensures
            r + 1 == self@.len(),
    {
        self.poly.degree()
    }

    /// The `i`-th secret key share: the polynomial evaluated at `i + 1`,
    /// moved into a zeroing container.
    pub fn secret_key_share(&self, i: u64) -> (r: SecretKeyShare)
        requires
            self.wf(),
        ensures
            r.wf(),
            r@ == poly_eval(self@, (i + 1) as nat),
    {
        let x = into_fr_plus_1(i);
        let mut fr = self.poly.evaluate(&x);
        SecretKeyShare::from_mut(&mut fr)
    }

    /// A receiver-side secret key share, derived identically to
    /// [`SecretKeySet::secret_key_share`].
    pub fn user_secret_key_share(&self, i: u64) -> (r: SecretKeyShare)
        requires
            self.wf(),
        ensures
            r.wf(),
            r@ == poly_eval(self@, (i + 1) as nat),
    {
        let x = into_fr_plus_1(i);
        let mut fr = self.poly.evaluate(&x);
        SecretKeyShare::from_mut(&mut fr)
    }

    /// The corresponding public key set; safe to share publicly.
    pub fn public_keys(&self) -> (r: PkgPublicKeySet)
        requires
            self.wf(),
        ensures
            r.wf(),
            r@ =~= self@,
    {
        PkgPublicKeySet { commit: self.poly.commitment() }
    }

    /// The secret master key: the polynomial's value at zero, moved into a
    /// zeroing container.
    pub fn secret_key(&self) -> (r: SecretKey)
        requires
            self.wf(),
        ensures
            r.wf(),
            r@ == poly_eval(self@, 0),
    {
        let zero = crate::field::Scalar::zero();
        let mut fr = self.poly.evaluate(&zero);
        SecretKey::from_mut(&mut fr)
    }
}

impl From<Poly> for SecretKeySet {
    /// Wraps a polynomial as a secret key set.
    fn from(poly: Poly) -> (r: SecretKeySet) {
        SecretKeySet { poly }
    }
}

impl vstd::std_specs::convert::FromSpecImpl<Poly> for SecretKeySet {
    open spec fn obeys_from_spec() -> bool {
        true
    }

    open spec fn from_spec(poly: Poly) -> SecretKeySet {
        SecretKeySet { poly }
    }
}

} // verus!
