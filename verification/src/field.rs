//! Scalars of the BLS12-381 scalar field `Fr`, held in canonical form.
//!
//! A [`Scalar`] stores the four little-endian 64-bit limbs of a field element
//! and is viewed as the natural number they encode; a well-formed scalar is
//! below the group order.  Arithmetic is delegated to the `pairing` crate
//! through trusted wrappers whose contracts state the result's value modulo
//! the order.

use vstd::prelude::*;
use vstd::arithmetic::div_mod::lemma_fundamental_div_mod_converse;
use pairing::bls12_381::{Fr, FrRepr};
use pairing::{Field, PrimeField};
use rand::Rand;
use zeroize::Zeroize;

verus! {

/// The order of the BLS12-381 scalar field `Fr` and of the prime-order
/// subgroups of `G1` and `G2`, as the `pairing` crate defines it.
pub open spec fn fr_order() -> nat {
    52435875175126190479447740508185965837690552500527637822603658699938581184513nat
}

/// One limb's worth: `2^64`.
pub open spec fn limb_base() -> nat {
    0x1_0000_0000_0000_0000nat
}

/// The natural number encoded by four little-endian 64-bit limbs.
pub open spec fn limbs_val(l: [u64; 4]) -> nat {
    (l[0] + limb_base() * (l[1] + limb_base() * (l[2] + limb_base() * l[3]))) as nat
}

/// An element of `Fr` in canonical (reduced) representation.
#[derive(Clone, Copy, Debug)]
pub struct Scalar {
    pub limbs: [u64; 4],
}

impl View for Scalar {
    type V = nat;

    open spec fn view(&self) -> nat {
        limbs_val(self.limbs)
    }
}

/// Distinct limb vectors encode distinct values.
proof fn lemma_limbs_val_inj(a: [u64; 4], b: [u64; 4])
    requires
        limbs_val(a) == limbs_val(b),
    ensures
        a[0] == b[0] && a[1] == b[1] && a[2] == b[2] && a[3] == b[3],
{
    let base = limb_base() as int;
    let va = limbs_val(a) as int;
    let qa2 = a[2] + base * a[3];
    let qa1 = a[1] + base * qa2;
    let qb2 = b[2] + base * b[3];
    let qb1 = b[1] + base * qb2;
    lemma_fundamental_div_mod_converse(va, base, qa1, a[0] as int);
    lemma_fundamental_div_mod_converse(va, base, qb1, b[0] as int);
    lemma_fundamental_div_mod_converse(qa1, base, qa2, a[1] as int);
    lemma_fundamental_div_mod_converse(qa1, base, qb2, b[1] as int);
    lemma_fundamental_div_mod_converse(qa2, base, a[3] as int, a[2] as int);
    lemma_fundamental_div_mod_converse(qa2, base, b[3] as int, b[2] as int);
}

impl Scalar {
    /// A scalar is well formed when its value is reduced below the order.
    pub open spec fn wf(self) -> bool {
        self@ < fr_order()
    }

    /// The zero scalar.
    pub fn zero() -> (r: Scalar)
        ensures
            r.wf(),
            r@ == 0,
    {
        Scalar { limbs: [0u64, 0u64, 0u64, 0u64] }
    }

    /// The scalar one.
    pub fn one() -> (r: Scalar)
        ensures
            r.wf(),
            r@ == 1,
    {
        Scalar { limbs: [1u64, 0u64, 0u64, 0u64] }
    }

    /// The scalar with the given small value.
    pub fn from_u64(x: u64) -> (r: Scalar)
        ensures
            r.wf(),
            r@ == x,
    {
        Scalar { limbs: [x, 0u64, 0u64, 0u64] }
    }

    /// True when both scalars hold the same value.
    pub fn eq_value(&self, other: &Scalar) -> (r: bool)
        ensures
            r == (self@ == other@),
    {
        proof {
            if self@ == other@ {
                lemma_limbs_val_inj(self.limbs, other.limbs);
            }
        }
        self.limbs[0] == other.limbs[0] && self.limbs[1] == other.limbs[1]
            && self.limbs[2] == other.limbs[2] && self.limbs[3] == other.limbs[3]
    }

    /// True when the scalar is zero.
    pub fn is_zero(&self) -> (r: bool)
        ensures
            r == (self@ == 0),
    {
        let z = Scalar::zero();
        self.eq_value(&z)
    }
}

/// Overwrites the scalar's limbs with zeros.
///
/// Relies on `zeroize::Zeroize` for `[u64; 4]`: every element is replaced by
/// zero, through a write the compiler may not elide.
#[verifier::external_body]
pub(crate) fn fr_wipe(s: &mut Scalar)
    ensures
        final(s).wf(),
        final(s)@ == 0,
        final(s).limbs[0] == 0 && final(s).limbs[1] == 0 && final(s).limbs[2] == 0
            && final(s).limbs[3] == 0,
    opens_invariants none
    no_unwind
{
    s.limbs.zeroize();
}

/// The modular sum of two scalars.
///
/// Relies on `Fr::add_assign`: addition in the prime field of order
/// `fr_order()`, on canonical representations.
#[verifier::external_body]
pub(crate) fn fr_add(a: &Scalar, b: &Scalar) -> (r: Scalar)
    requires
        a.wf(),
        b.wf(),
    ensures
        r.wf(),
        r@ == (a@ + b@) % fr_order(),
{
    let mut x = Fr::from_repr(FrRepr(a.limbs)).expect("canonical scalar");
    let y = Fr::from_repr(FrRepr(b.limbs)).expect("canonical scalar");
    x.add_assign(&y);
    Scalar { limbs: x.into_repr().0 }
}

/// The modular difference of two scalars.
///
/// Relies on `Fr::sub_assign`: subtraction in the prime field of order
/// `fr_order()`, on canonical representations.
#[verifier::external_body]
pub(crate) fn fr_sub(a: &Scalar, b: &Scalar) -> (r: Scalar)
    requires
        a.wf(),
        b.wf(),
    ensures
        r.wf(),
        r@ == (a@ - b@) % (fr_order() as int),
{
    let mut x = Fr::from_repr(FrRepr(a.limbs)).expect("canonical scalar");
    let y = Fr::from_repr(FrRepr(b.limbs)).expect("canonical scalar");
    x.sub_assign(&y);
    Scalar { limbs: x.into_repr().0 }
}

/// The modular product of two scalars.
///
/// Relies on `Fr::mul_assign`: multiplication in the prime field of order
/// `fr_order()`, on canonical representations.  Because the order is prime,
/// a product of nonzero elements is nonzero.
#[verifier::external_body]
pub(crate) fn fr_mul(a: &Scalar, b: &Scalar) -> (r: Scalar)
    requires
        a.wf(),
        b.wf(),
    ensures
        r.wf(),
        r@ == (a@ * b@) % fr_order(),
        a@ != 0 && b@ != 0 ==> r@ != 0,
{
    let mut x = Fr::from_repr(FrRepr(a.limbs)).expect("canonical scalar");
    let y = Fr::from_repr(FrRepr(b.limbs)).expect("canonical scalar");
    x.mul_assign(&y);
    Scalar { limbs: x.into_repr().0 }
}

/// The multiplicative inverse of a scalar, or `None` for zero.
///
/// Relies on `Fr::inverse`: computes the inverse of a nonzero element of the
/// prime field and returns `None` exactly for zero.
#[verifier::external_body]
pub(crate) fn fr_inverse(a: &Scalar) -> (r: Option<Scalar>)
    requires
        a.wf(),
    ensures
        r.is_some() <==> a@ != 0,
        r.is_some() ==> r.unwrap().wf() && (a@ * r.unwrap()@) % fr_order() == 1,
{
    let x = Fr::from_repr(FrRepr(a.limbs)).expect("canonical scalar");
    match x.inverse() {
        Some(inv) => Some(Scalar { limbs: inv.into_repr().0 }),
        None => None,
    }
}

/// A scalar drawn uniformly from the operating system's entropy source.
///
/// Relies on `rand::thread_rng` and the `pairing` crate's `Rand` instance for
/// `Fr`; nothing is promised of the value beyond well-formedness.
#[verifier::external_body]
pub(crate) fn fr_random() -> (r: Scalar)
    ensures
        r.wf(),
{
    let mut rng = rand::thread_rng();
    let f: Fr = Rand::rand(&mut rng);
    Scalar { limbs: f.into_repr().0 }
}

} // verus!
