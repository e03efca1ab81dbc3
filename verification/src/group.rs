//! Elements of the BLS12-381 groups `G1`, `G2` and of the pairing target
//! field, modelled by their discrete logarithms.
//!
//! Every group element this library produces lies in the prime-order
//! subgroup, so it equals the fixed generator raised to a unique exponent
//! below [`fr_order`].  The names [`g1_dlog`], [`g2_dlog`] and [`gt_dlog`]
//! stand for that exponent, and [`g1_in_group`], [`g2_in_group`] and
//! [`gt_in_group`] for membership in the subgroup; a pairing result is
//! referred to the pairing of the two generators.  Each trusted wrapper's
//! contract records how the `pairing` crate's operation acts on those
//! exponents.

use vstd::prelude::*;
use crate::field::{Scalar, fr_order};
use pairing::bls12_381::{Bls12, Fq12, FrRepr, G1, G2, G1Affine, G2Affine};
use pairing::{CurveAffine, CurveProjective, EncodedPoint, Engine};
use hex_fmt::HexFmt;

verus! {

#[verifier::external_type_specification]
#[verifier::external_body]
pub struct ExG1(G1);

#[verifier::external_type_specification]
#[verifier::external_body]
pub struct ExG2(G2);

#[verifier::external_type_specification]
#[verifier::external_body]
pub struct ExFq12(Fq12);

/// True when the point lies in the prime-order subgroup of `G1`, where
/// [`g1_dlog`] gives its discrete logarithm.
pub uninterp spec fn g1_in_group(p: G1) -> bool;

/// The discrete logarithm of a subgroup point of `G1` with respect to the
/// fixed generator.  Equal points have equal logarithms.
pub uninterp spec fn g1_dlog(p: G1) -> nat;

/// True when the point lies in the prime-order subgroup of `G2`, where
/// [`g2_dlog`] gives its discrete logarithm.
pub uninterp spec fn g2_in_group(p: G2) -> bool;

/// The discrete logarithm of a subgroup point of `G2` with respect to the
/// fixed generator.  Equal points have equal logarithms.
pub uninterp spec fn g2_dlog(p: G2) -> nat;

/// True when the field element lies in the order-[`fr_order`] subgroup of
/// the pairing target field, where [`gt_dlog`] gives its discrete logarithm
/// with respect to the pairing of the two generators.
pub uninterp spec fn gt_in_group(g: Fq12) -> bool;

/// The discrete logarithm of a pairing result with respect to the pairing
/// of the two generators.  Equal elements have equal logarithms.
pub uninterp spec fn gt_dlog(g: Fq12) -> nat;

/// The compressed representation of the subgroup element of `G1` with the
/// given exponent, as 48 bytes.
pub uninterp spec fn g1_repr(e: nat) -> Seq<u8>;

/// The compressed representation of the subgroup element of `G2` with the
/// given exponent, as 96 bytes.
pub uninterp spec fn g2_repr(e: nat) -> Seq<u8>;

/// The exponent encoded by 48 bytes, or `None` when they are not the
/// compressed representation of a `G1` subgroup element.
pub uninterp spec fn g1_decode(b: Seq<u8>) -> Option<nat>;

/// The exponent encoded by 96 bytes, or `None` when they are not the
/// compressed representation of a `G2` subgroup element.
pub uninterp spec fn g2_decode(b: Seq<u8>) -> Option<nat>;

/// The decimal rendering of the pairing-target element with the given
/// exponent.
pub uninterp spec fn gt_str(e: nat) -> Seq<char>;

/// The truncated hexadecimal rendering of the uncompressed form of the `G2`
/// subgroup element with the given exponent.
pub uninterp spec fn g2_hex(e: nat) -> Seq<char>;

/// A `G1` point this library works with: a subgroup element with a reduced
/// discrete logarithm.
pub open spec fn g1_ok(p: G1) -> bool {
    g1_in_group(p) && g1_dlog(p) < fr_order()
}

/// A `G2` point this library works with: a subgroup element with a reduced
/// discrete logarithm.
pub open spec fn g2_ok(p: G2) -> bool {
    g2_in_group(p) && g2_dlog(p) < fr_order()
}

/// A pairing result this library works with: a subgroup element with a
/// reduced discrete logarithm.
pub open spec fn gt_ok(g: Fq12) -> bool {
    gt_in_group(g) && gt_dlog(g) < fr_order()
}

/// The identity of `G1`.
///
/// Relies on `G1::zero`: the additive identity, the generator raised to
/// zero.
#[verifier::external_body]
pub(crate) fn g1_zero() -> (r: G1)
    ensures
        g1_in_group(r),
        g1_dlog(r) == 0,
{
    G1::zero()
}

/// The fixed generator of `G1`.
///
/// Relies on `G1::one`: the standard generator, whose exponent is one.
#[verifier::external_body]
pub(crate) fn g1_one() -> (r: G1)
    ensures
        g1_ok(r),
        g1_dlog(r) == 1,
{
    G1::one()
}

/// The sum of two `G1` elements.
///
/// Relies on `G1::add_assign`: group addition, which adds exponents modulo
/// the group order.
#[verifier::external_body]
pub(crate) fn g1_add(a: &G1, b: &G1) -> (r: G1)
    requires
        g1_ok(*a),
        g1_ok(*b),
    ensures
        g1_ok(r),
        g1_dlog(r) == (g1_dlog(*a) + g1_dlog(*b)) % fr_order(),
{
    let mut p = *a;
    p.add_assign(b);
    p
}

/// A `G1` element multiplied by a scalar.
///
/// Relies on `G1::mul_assign`: scalar multiplication, which multiplies the
/// exponent by the scalar modulo the group order.
#[verifier::external_body]
pub(crate) fn g1_mul(a: &G1, s: &Scalar) -> (r: G1)
    requires
        g1_ok(*a),
        s.wf(),
    ensures
        g1_ok(r),
        g1_dlog(r) == (g1_dlog(*a) * s@) % fr_order(),
{
    let mut p = *a;
    p.mul_assign(FrRepr(s.limbs));
    p
}

/// True when two `G1` elements are the same point.
///
/// Relies on `G1::eq`: point equality, which in the cyclic subgroup holds
/// exactly when the reduced exponents agree.
#[verifier::external_body]
pub(crate) fn g1_eq(a: &G1, b: &G1) -> (r: bool)
    requires
        g1_ok(*a),
        g1_ok(*b),
    ensures
        r == (g1_dlog(*a) == g1_dlog(*b)),
{
    a == b
}

/// The compressed 48-byte encoding of a `G1` element.
///
/// Relies on `G1Affine::into_compressed`: a canonical encoding that
/// `into_affine` decodes back to the same point.
#[verifier::external_body]
pub(crate) fn g1_to_bytes(a: &G1) -> (r: [u8; 48])
    requires
        g1_ok(*a),
    ensures
        r@ == g1_repr(g1_dlog(*a)),
        g1_decode(r@) == Some(g1_dlog(*a)),
{
    let mut bytes = [0u8; 48];
    bytes.copy_from_slice(a.into_affine().into_compressed().as_ref());
    bytes
}

/// The `G1` element encoded by 48 bytes, if any.
///
/// Relies on `G1Compressed::into_affine`: decodes a compressed point and
/// rejects any representation that is not a point of the prime-order
/// subgroup.
#[verifier::external_body]
pub(crate) fn g1_from_bytes(bytes: &[u8; 48]) -> (r: Option<G1>)
    ensures
        match g1_decode(bytes@) {
            Some(e) => r.is_some() && g1_ok(r.unwrap()) && g1_dlog(r.unwrap()) == e,
            None => r.is_none(),
        },
{
    let mut compressed = <G1Affine as CurveAffine>::Compressed::empty();
    compressed.as_mut().copy_from_slice(bytes);
    match compressed.into_affine() {
        Ok(affine) => Some(affine.into_projective()),
        Err(_) => None,
    }
}

/// The identity of `G2`.
///
/// Relies on `G2::zero`: the additive identity, the generator raised to
/// zero.
#[verifier::external_body]
pub(crate) fn g2_zero() -> (r: G2)
    ensures
        g2_in_group(r),
        g2_dlog(r) == 0,
{
    G2::zero()
}

/// The fixed generator of `G2`.
///
/// Relies on `G2::one`: the standard generator, whose exponent is one.
#[verifier::external_body]
pub(crate) fn g2_one() -> (r: G2)
    ensures
        g2_ok(r),
        g2_dlog(r) == 1,
{
    G2::one()
}

/// The sum of two `G2` elements.
///
/// Relies on `G2::add_assign`: group addition, which adds exponents modulo
/// the group order.
#[verifier::external_body]
pub(crate) fn g2_add(a: &G2, b: &G2) -> (r: G2)
    requires
        g2_ok(*a),
        g2_ok(*b),
    ensures
        g2_ok(r),
        g2_dlog(r) == (g2_dlog(*a) + g2_dlog(*b)) % fr_order(),
{
    let mut p = *a;
    p.add_assign(b);
    p
}

/// A `G2` element multiplied by a scalar.
///
/// Relies on `G2::mul_assign`: scalar multiplication, which multiplies the
/// exponent by the scalar modulo the group order.
#[verifier::external_body]
pub(crate) fn g2_mul(a: &G2, s: &Scalar) -> (r: G2)
    requires
        g2_ok(*a),
        s.wf(),
    ensures
        g2_ok(r),
        g2_dlog(r) == (g2_dlog(*a) * s@) % fr_order(),
{
    let mut p = *a;
    p.mul_assign(FrRepr(s.limbs));
    p
}

/// True when two `G2` elements are the same point.
///
/// Relies on `G2::eq`: point equality, which in the cyclic subgroup holds
/// exactly when the reduced exponents agree.
#[verifier::external_body]
pub(crate) fn g2_eq(a: &G2, b: &G2) -> (r: bool)
    requires
        g2_ok(*a),
        g2_ok(*b),
    ensures
        r == (g2_dlog(*a) == g2_dlog(*b)),
{
    a == b
}

/// The compressed 96-byte encoding of a `G2` element.
///
/// Relies on `G2Affine::into_compressed`: a canonical encoding that
/// `into_affine` decodes back to the same point.
#[verifier::external_body]
pub(crate) fn g2_to_bytes(a: &G2) -> (r: [u8; 96])
    requires
        g2_ok(*a),
    ensures
        r@ == g2_repr(g2_dlog(*a)),
        g2_decode(r@) == Some(g2_dlog(*a)),
{
    let mut bytes = [0u8; 96];
    bytes.copy_from_slice(a.into_affine().into_compressed().as_ref());
    bytes
}

/// The `G2` element encoded by 96 bytes, if any.
///
/// Relies on `G2Compressed::into_affine`: decodes a compressed point and
/// rejects any representation that is not a point of the prime-order
/// subgroup.
#[verifier::external_body]
pub(crate) fn g2_from_bytes(bytes: &[u8; 96]) -> (r: Option<G2>)
    ensures
        match g2_decode(bytes@) {
            Some(e) => r.is_some() && g2_ok(r.unwrap()) && g2_dlog(r.unwrap()) == e,
            None => r.is_none(),
        },
{
    let mut compressed = <G2Affine as CurveAffine>::Compressed::empty();
    compressed.as_mut().copy_from_slice(bytes);
    match compressed.into_affine() {
        Ok(affine) => Some(affine.into_projective()),
        Err(_) => None,
    }
}

/// The truncated hexadecimal rendering of a `G2` element's uncompressed
/// form.
///
/// Relies on `G2Affine::into_uncompressed`, a canonical encoding, and on the
/// `hex_fmt` crate's hexadecimal formatting of it.
#[verifier::external_body]
pub(crate) fn g2_hex_str(a: &G2) -> (r: String)
    requires
        g2_ok(*a),
    ensures
        r@ == g2_hex(g2_dlog(*a)),
{
    let uncomp = a.into_affine().into_uncompressed();
    format!("{:0.10}", HexFmt(uncomp))
}

/// The bilinear pairing of a `G1` and a `G2` element.
///
/// Relies on `Bls12::pairing`: the bilinear map, under which the result's
/// exponent with respect to the pairing of the generators is the product of
/// the arguments' exponents modulo the group order.
#[verifier::external_body]
pub(crate) fn pairing_g1_g2(a: &G1, b: &G2) -> (r: Fq12)
    requires
        g1_ok(*a),
        g2_ok(*b),
    ensures
        gt_in_group(r),
        gt_dlog(r) == (g1_dlog(*a) * g2_dlog(*b)) % fr_order(),
{
    Bls12::pairing(*a, *b)
}

/// True when two pairing results are the same field element.
///
/// Relies on `Fq12::eq`: field equality, which in the order-[`fr_order`]
/// subgroup holds exactly when the reduced exponents agree.
#[verifier::external_body]
pub(crate) fn gt_eq(a: &Fq12, b: &Fq12) -> (r: bool)
    requires
        gt_ok(*a),
        gt_ok(*b),
    ensures
        r == (gt_dlog(*a) == gt_dlog(*b)),
{
    a == b
}

/// The decimal rendering of a pairing result.
///
/// Relies on `Fq12`'s `Display` implementation: a rendering of the unique
/// canonical representation of the field element.
#[verifier::external_body]
pub(crate) fn gt_to_string(a: &Fq12) -> (r: String)
    requires
        gt_ok(*a),
    ensures
        r@ == gt_str(gt_dlog(*a)),
{
    format!("{}", a)
}

} // verus!
