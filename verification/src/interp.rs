//! Lagrange interpolation at zero over any structure with a scalar action.
//!
//! Given `t + 1` samples `(i, f(i + 1) * g)` of a degree-`t` polynomial `f`
//! lifted by a generator `g`, interpolation reconstructs `f(0) * g` without
//! any party holding `f` itself.  The algorithm computes every sample's
//! Lagrange basis coefficient at zero with a forward and a backward running
//! product, using `O(t)` multiplications in total, and fails when two
//! samples share an evaluation point, whose zero difference has no inverse.
//!
//! The reconstruction is linear over whatever module structure the element
//! type supports, so one implementation serves scalars, `G1` and `G2`.

use vstd::prelude::*;
use vstd::arithmetic::div_mod::{
    lemma_fundamental_div_mod_converse, lemma_mod_multiples_vanish, lemma_mul_mod_noop_general,
    lemma_small_mod,
};
use vstd::arithmetic::mul::lemma_mul_basics;
use crate::error::Error;
use crate::field::{Scalar, fr_order, fr_sub, fr_mul, fr_add, fr_inverse};
use crate::group::{
    g1_ok, g1_dlog, g1_zero, g1_add, g1_mul, g2_ok, g2_dlog, g2_zero, g2_add, g2_mul,
};
use pairing::bls12_381::{G1, G2};

verus! {

/// A structure over which Lagrange reconstruction works: it has a zero, an
/// addition, and a scalar action, all acting on a model below the group
/// order.
pub trait Interpolable: Sized {
    /// The mathematical value of the element: a scalar, or a point's
    /// discrete logarithm.
    spec fn model(&self) -> nat;

    /// The element is well formed and its model is reduced.
    spec fn ok(&self) -> bool;

    /// The zero element.
    fn elem_zero() -> (r: Self)
        ensures
            r.ok(),
            r.model() == 0,
    ;

    /// The sum of two elements.
    fn elem_add(&self, other: &Self) -> (r: Self)
        requires
            self.ok(),
            other.ok(),
        ensures
            r.ok(),
            r.model() == (self.model() + other.model()) % fr_order(),
    ;

    /// The element scaled by a scalar.
    fn elem_mul(&self, s: &Scalar) -> (r: Self)
        requires
            self.ok(),
            s.wf(),
        ensures
            r.ok(),
            r.model() == (self.model() * s@) % fr_order(),
    ;

    /// An owned copy of the element.
    fn elem_dup(&self) -> (r: Self)
        requires
            self.ok(),
        ensures
            r.ok(),
            r.model() == self.model(),
    ;
}

impl Interpolable for Scalar {
    open spec fn model(&self) -> nat {
        self@
    }

    open spec fn ok(&self) -> bool {
        self.wf()
    }

    fn elem_zero() -> (r: Self) {
        Scalar::zero()
    }

    fn elem_add(&self, other: &Self) -> (r: Self) {
        fr_add(self, other)
    }

    fn elem_mul(&self, s: &Scalar) -> (r: Self) {
        fr_mul(self, s)
    }

    fn elem_dup(&self) -> (r: Self) {
        *self
    }
}

impl Interpolable for G1 {
    open spec fn model(&self) -> nat {
        g1_dlog(*self)
    }

    open spec fn ok(&self) -> bool {
        g1_ok(*self)
    }

    fn elem_zero() -> (r: Self) {
        g1_zero()
    }

    fn elem_add(&self, other: &Self) -> (r: Self) {
        g1_add(self, other)
    }

    fn elem_mul(&self, s: &Scalar) -> (r: Self) {
        g1_mul(self, s)
    }

    fn elem_dup(&self) -> (r: Self) {
        *self
    }
}

impl Interpolable for G2 {
    open spec fn model(&self) -> nat {
        g2_dlog(*self)
    }

    open spec fn ok(&self) -> bool {
        g2_ok(*self)
    }

    fn elem_zero() -> (r: Self) {
        g2_zero()
    }

    fn elem_add(&self, other: &Self) -> (r: Self) {
        g2_add(self, other)
    }

    fn elem_mul(&self, s: &Scalar) -> (r: Self) {
        g2_mul(self, s)
    }

    fn elem_dup(&self) -> (r: Self) {
        *self
    }
}

/// The difference `a - b` in the field, as a reduced natural number.
pub open spec fn sub_mod(a: nat, b: nat) -> nat {
    ((a - b) % (fr_order() as int)) as nat
}

/// The product of `xs[0..k]`, modulo the group order.
pub open spec fn pfx_prod(xs: Seq<nat>, k: int) -> nat
    decreases k,
{
    if k <= 0 {
        1
    } else {
        (pfx_prod(xs, k - 1) * xs[k - 1]) % fr_order()
    }
}

/// The product of `xs[a..b]`, modulo the group order.
pub open spec fn sfx_prod(xs: Seq<nat>, a: int, b: int) -> nat
    decreases b - a,
{
    if a >= b {
        1
    } else {
        (sfx_prod(xs, a + 1, b) * xs[a]) % fr_order()
    }
}

/// The product of all evaluation points but the `i`-th, modulo the group
/// order.
pub open spec fn prod_except(xs: Seq<nat>, i: int) -> nat {
    (pfx_prod(xs, i) * sfx_prod(xs, i + 1, xs.len() as int)) % fr_order()
}

/// The product of the differences `xs[j] - xs[i]` over `j` in `[0, k)`,
/// `j != i`, modulo the group order.
pub open spec fn denom_pre(xs: Seq<nat>, i: int, k: int) -> nat
    decreases k,
{
    if k <= 0 {
        1
    } else {
        let f = if k - 1 == i {
            1
        } else {
            sub_mod(xs[k - 1], xs[i])
        };
        (denom_pre(xs, i, k - 1) * f) % fr_order()
    }
}

/// The denominator of the `i`-th Lagrange basis coefficient: the product of
/// the differences of all other evaluation points from the `i`-th.
pub open spec fn denom(xs: Seq<nat>, i: int) -> nat {
    denom_pre(xs, i, xs.len() as int)
}

/// The multiplicative inverse of `d` modulo the group order, where one
/// exists.
pub open spec fn inv_mod(d: nat) -> nat {
    choose|v: nat| v < fr_order() && #[trigger] ((d * v) % fr_order()) == 1
}

/// The `i`-th Lagrange basis coefficient at zero: the product of the other
/// evaluation points divided by the product of their differences from the
/// `i`-th.
pub open spec fn lagrange_coeff(xs: Seq<nat>, i: int) -> nat {
    (prod_except(xs, i) * inv_mod(denom(xs, i))) % fr_order()
}

/// The first `k` terms of the reconstruction: each sample's model scaled by
/// its Lagrange basis coefficient, accumulated modulo the group order.
pub open spec fn lagrange_sum(xs: Seq<nat>, ms: Seq<nat>, k: int) -> nat
    decreases k,
{
    if k <= 0 {
        0
    } else {
        (lagrange_sum(xs, ms, k - 1) + (ms[k - 1] * lagrange_coeff(xs, k - 1)) % fr_order())
            % fr_order()
    }
}

/// Two of the evaluation points coincide.
pub open spec fn has_dup(xs: Seq<nat>) -> bool {
    exists|i: int, j: int| 0 <= i < j < xs.len() && xs[i] == xs[j]
}

/// The evaluation points of the first `t + 1` samples: each index, plus
/// one.
pub open spec fn eval_points<C>(items: Seq<(u64, C)>, t: int) -> Seq<nat> {
    items.take(t + 1).map_values(|p: (u64, C)| (p.0 + 1) as nat)
}

/// The models of the first `t + 1` samples.
pub open spec fn sample_models<C: Interpolable>(items: Seq<(u64, C)>, t: int) -> Seq<nat> {
    items.take(t + 1).map_values(|p: (u64, C)| p.1.model())
}

/// For reduced values the field difference vanishes exactly on equality.
proof fn lemma_sub_mod_zero(a: nat, b: nat)
    requires
        a < fr_order(),
        b < fr_order(),
    ensures
        (sub_mod(a, b) == 0) <==> (a == b),
{
    let m = fr_order() as int;
    if a >= b {
        lemma_small_mod((a - b) as nat, fr_order());
    } else {
        lemma_fundamental_div_mod_converse(a - b, m, -1, a - b + m);
    }
}

/// An inverse modulo the group order is unique among reduced values.
proof fn lemma_inv_unique(d: nat, x: nat, y: nat)
    requires
        x < fr_order(),
        y < fr_order(),
        (d * x) % fr_order() == 1,
        (d * y) % fr_order() == 1,
    ensures
        x == y,
{
    let m = fr_order() as int;
    let di = d as int;
    let xi = x as int;
    let yi = y as int;
    assert(xi * (di * yi) == (di * xi) * yi && yi * (di * xi) == (di * yi) * xi)
        by (nonlinear_arith);
    lemma_mul_mod_noop_general(xi, di * yi, m);
    lemma_mul_mod_noop_general(di * xi, yi, m);
    lemma_mul_basics(xi);
    lemma_mul_basics(yi);
    lemma_small_mod(x, fr_order());
    lemma_small_mod(y, fr_order());
    assert((xi * ((di * yi) % m)) % m == ((di * xi) % m * yi) % m);
    lemma_mul_mod_noop_general(di * yi, xi, m);
    assert(((di * yi) % m * xi) % m == ((di * yi) * xi) % m);
    lemma_mul_mod_noop_general((di * xi), yi, m);
    assert(x == (xi * 1) % m);
    assert((xi * 1) % m == (xi * ((di * yi) % m)) % m);
    assert((xi * ((di * yi) % m)) % m == (xi * (di * yi)) % m);
    assert((xi * (di * yi)) % m == ((di * xi) * yi) % m);
    assert(((di * xi) * yi) % m == (((di * xi) % m) * yi) % m);
    assert((((di * xi) % m) * yi) % m == (1 * yi) % m);
    lemma_mul_basics(yi);
    assert((1 * yi) % m == y);
}

/// A zero factor keeps every longer difference product at zero.
proof fn lemma_denom_pre_zero(xs: Seq<nat>, i: int, k: int, kk: int)
    requires
        denom_pre(xs, i, k) == 0,
        k <= kk,
    ensures
        denom_pre(xs, i, kk) == 0,
    decreases kk - k,
{
    if k < kk {
        lemma_denom_pre_zero(xs, i, k, kk - 1);
        let f = if kk - 1 == i {
            1nat
        } else {
            sub_mod(xs[kk - 1], xs[i])
        };
        lemma_mul_basics(f as int);
        lemma_small_mod(0, fr_order());
    }
}

/// The field differences of two distinct reduced values, taken in both
/// orders, are complementary: they sum to the modulus.
proof fn lemma_sub_mod_complement(a: nat, b: nat)
    requires
        a < fr_order(),
        b < fr_order(),
        a != b,
    ensures
        sub_mod(a, b) + sub_mod(b, a) == fr_order(),
{
    let m = fr_order() as int;
    if a > b {
        lemma_small_mod((a - b) as nat, fr_order());
        lemma_fundamental_div_mod_converse(b - a, m, -1, b - a + m);
    } else {
        lemma_small_mod((b - a) as nat, fr_order());
        lemma_fundamental_div_mod_converse(a - b, m, -1, a - b + m);
    }
}

/// Interpolation correctness at degree one: when the two samples are
/// honest evaluations of a degree-one polynomial with coefficients
/// `c0, c1`, each scaled by a common factor `q`, at two distinct
/// evaluation points, and the basis denominators are invertible, the
/// reconstruction is the scaled constant term: the polynomial's value at
/// zero, lifted by the same factor.  The invertibility facts are exactly
/// what a successful [`interpolate`] guarantees.
#[verifier::rlimit(50)]
pub proof fn lemma_lagrange_degree_one(c0: nat, c1: nat, q: nat, xs: Seq<nat>, ms: Seq<nat>)
    requires
        xs.len() == 2,
        ms.len() == 2,
        c0 < fr_order(),
        c1 < fr_order(),
        q < fr_order(),
        xs[0] < fr_order(),
        xs[1] < fr_order(),
        xs[0] != xs[1],
        ms[0] == (q * ((c0 + xs[0] * c1) % fr_order())) % fr_order(),
        ms[1] == (q * ((c0 + xs[1] * c1) % fr_order())) % fr_order(),
        inv_mod(denom(xs, 0)) < fr_order(),
        (denom(xs, 0) * inv_mod(denom(xs, 0))) % fr_order() == 1,
        inv_mod(denom(xs, 1)) < fr_order(),
        (denom(xs, 1) * inv_mod(denom(xs, 1))) % fr_order() == 1,
    ensures
        lagrange_sum(xs, ms, 2) == (q * c0) % fr_order(),
{
    let m = fr_order() as int;
    let x1 = xs[0] as int;
    let x2 = xs[1] as int;
    lemma_small_mod(1, fr_order());

    // The denominators are the pairwise differences.
    assert(denom_pre(xs, 0, 0) == 1 && denom_pre(xs, 1, 0) == 1);
    lemma_mul_basics(sub_mod(xs[1], xs[0]) as int);
    lemma_mul_basics(sub_mod(xs[0], xs[1]) as int);
    lemma_mul_basics(denom_pre(xs, 1, 1) as int);
    lemma_small_mod(sub_mod(xs[1], xs[0]), fr_order());
    lemma_small_mod(sub_mod(xs[0], xs[1]), fr_order());
    assert(denom_pre(xs, 0, 1) == 1nat % fr_order());
    assert(denom(xs, 0) == sub_mod(xs[1], xs[0]));
    assert(denom_pre(xs, 1, 1) == sub_mod(xs[0], xs[1]));
    lemma_small_mod(denom_pre(xs, 1, 1), fr_order());
    assert(denom(xs, 1) == sub_mod(xs[0], xs[1]));
    let d1 = sub_mod(xs[1], xs[0]) as int;
    let d2 = sub_mod(xs[0], xs[1]) as int;
    lemma_sub_mod_complement(xs[0], xs[1]);
    assert(d1 + d2 == m);

    // The numerators are the opposite evaluation points.
    lemma_mul_basics(x2);
    lemma_mul_basics(x1);
    lemma_small_mod(xs[1], fr_order());
    lemma_small_mod(xs[0], fr_order());
    assert(pfx_prod(xs, 0) == 1 && sfx_prod(xs, 2, 2) == 1);
    assert(sfx_prod(xs, 1, 2) == xs[1]);
    assert(pfx_prod(xs, 1) == xs[0]);
    assert(prod_except(xs, 0) == xs[1]);
    assert(prod_except(xs, 1) == xs[0]);

    // The two inverses are complementary, like the differences.
    let i1 = inv_mod(denom(xs, 0)) as int;
    let i2 = inv_mod(denom(xs, 1)) as int;
    assert(i2 != 0) by {
        if i2 == 0 {
            assert((d2 * 0) == 0) by (nonlinear_arith);
            lemma_small_mod(0, fr_order());
        }
    }
    assert((d1 * (m - i2)) % m == 1) by {
        assert(d1 * (m - i2) == m * (d1 - i2) + d2 * i2) by (nonlinear_arith)
            requires d1 + d2 == m;
        lemma_mod_multiples_vanish(d1 - i2, d2 * i2, m);
        lemma_small_mod(1, fr_order());
    }
    lemma_inv_unique(denom(xs, 0), inv_mod(denom(xs, 0)), (m - i2) as nat);
    assert(i1 == m - i2);

    // The accumulated sum, with the modulus pushed outward.
    let l0 = lagrange_coeff(xs, 0) as int;
    let l1 = lagrange_coeff(xs, 1) as int;
    let m0 = ms[0] as int;
    let m1 = ms[1] as int;
    let e1 = c0 + x1 * (c1 as int);
    let e2 = c0 + x2 * (c1 as int);
    lemma_small_mod((ms[0] as nat * lagrange_coeff(xs, 0)) % fr_order(), fr_order());
    assert(lagrange_sum(xs, ms, 0) == 0);
    assert(lagrange_sum(xs, ms, 1) == (m0 * l0) % m);
    vstd::arithmetic::div_mod::lemma_add_mod_noop(m0 * l0, m1 * l1, m);
    assert(lagrange_sum(xs, ms, 2) as int == (m0 * l0 + m1 * l1) % m);

    // Each term collapses to one raw product modulo the order.
    lemma_mul_mod_noop_general(qi_times(q, e1), x2 * i1, m);
    lemma_mul_mod_noop_general(qi_times(q, e2), x1 * i2, m);
    lemma_mul_mod_noop_general(q as int, e1, m);
    lemma_mul_mod_noop_general(q as int, e2, m);
    assert(m0 == (q as int * e1) % m);
    assert(m1 == (q as int * e2) % m);
    assert(l0 == (x2 * i1) % m);
    assert(l1 == (x1 * i2) % m);
    assert((m0 * l0) % m == ((q as int * e1) * (x2 * i1)) % m) by {
        lemma_mul_mod_noop_general(q as int * e1, x2 * i1, m);
    }
    assert((m1 * l1) % m == ((q as int * e2) * (x1 * i2)) % m) by {
        lemma_mul_mod_noop_general(q as int * e2, x1 * i2, m);
    }
    vstd::arithmetic::div_mod::lemma_add_mod_noop(
        (q as int * e1) * (x2 * i1),
        (q as int * e2) * (x1 * i2),
        m,
    );
    vstd::arithmetic::div_mod::lemma_add_mod_noop(m0 * l0, m1 * l1, m);
    let raw = (q as int * e1) * (x2 * i1) + (q as int * e2) * (x1 * i2);
    assert(lagrange_sum(xs, ms, 2) as int == raw % m);

    // Substitute the complementary inverse and cancel: what is left is the
    // constant term scaled by the factor and by one.
    let qc = q as int * c0;
    let qq = q as int;
    assert(e1 * x2 - e2 * x1 == c0 * (x2 - x1)) by (nonlinear_arith)
        requires
            e1 == c0 + x1 * (c1 as int),
            e2 == c0 + x2 * (c1 as int);
    assert(e2 * (x1 * i2) == m * (e2 * x1) - i1 * (e2 * x1)) by (nonlinear_arith)
        requires
            i2 == m - i1;
    assert(e1 * (x2 * i1) == i1 * (e1 * x2)) by (nonlinear_arith);
    assert(i1 * (e1 * x2) - i1 * (e2 * x1) == i1 * (e1 * x2 - e2 * x1)) by (nonlinear_arith);
    assert(e1 * (x2 * i1) + e2 * (x1 * i2) == i1 * (e1 * x2 - e2 * x1) + m * (e2 * x1));
    assert(raw == qq * (e1 * (x2 * i1) + e2 * (x1 * i2))) by (nonlinear_arith)
        requires
            raw == (qq * e1) * (x2 * i1) + (qq * e2) * (x1 * i2);
    assert(raw == m * (qq * (e2 * x1)) + qc * ((x2 - x1) * i1)) by (nonlinear_arith)
        requires
            raw == qq * (i1 * (c0 * (x2 - x1)) + m * (e2 * x1)),
            qc == qq * c0;
    lemma_mod_multiples_vanish(qq * (e2 * x1), qc * ((x2 - x1) * i1), m);
    assert(raw % m == (qc * ((x2 - x1) * i1)) % m);
    lemma_mul_mod_noop_general(qc, (x2 - x1) * i1, m);
    assert(((x2 - x1) * i1) % m == (d1 * i1) % m) by {
        lemma_mul_mod_noop_general(x2 - x1, i1, m);
        lemma_mul_mod_noop_general(d1, i1, m);
    }
    assert((qc * ((x2 - x1) * i1)) % m == (qc * 1) % m) by {
        lemma_mul_mod_noop_general(qc, (x2 - x1) * i1, m);
        lemma_mul_mod_noop_general(qc, d1 * i1, m);
        lemma_mul_mod_noop_general(qc, 1, m);
    }
    lemma_mul_basics(qc);
    assert(lagrange_sum(xs, ms, 2) as int == (q as int * c0) % m);
}

/// The raw product of a factor and an evaluation; a spec-level grouping
/// helper.
spec fn qi_times(q: nat, e: int) -> int {
    q * e
}

/// The evaluation point for share index `x`: the scalar `x + 1`.  Index
/// zero is reserved for the master value itself, which is why shares are
/// issued at `x + 1` and never at zero.
pub fn into_fr_plus_1(x: u64) -> (r: Scalar)
    ensures
        r.wf(),
        r@ == x + 1,
{
    if x == u64::MAX {
        let r = Scalar { limbs: [0u64, 1u64, 0u64, 0u64] };
        proof {
            assert(r@ == 0x1_0000_0000_0000_0000nat);
        }
        r
    } else {
        Scalar::from_u64(x + 1)
    }
}

/// Reconstructs the value at zero from the first `t + 1` samples
/// `(index, element)`: the element equals the underlying polynomial's value
/// at `index + 1` lifted into the structure, and the result equals the
/// polynomial's value at zero lifted the same way.
///
/// Fails with [`Error::NotEnoughShares`] when fewer than `t + 1` samples
/// are supplied, and with [`Error::DuplicateEntry`] when two of the first
/// `t + 1` samples share an evaluation point.  On success the result is
/// exactly the accumulated sum of each sample scaled by its Lagrange basis
/// coefficient at zero.
pub fn interpolate<C: Interpolable>(t: usize, items: &Vec<(u64, C)>) -> (r: Result<C, Error>)
    requires
        forall|k: int| 0 <= k < items@.len() ==> (#[trigger] items@[k]).1.ok(),
    ensures
        r == Err::<C, Error>(Error::NotEnoughShares) <==> items@.len() <= t,
        r == Err::<C, Error>(Error::DuplicateEntry) <==> items@.len() > t && has_dup(
            eval_points(items@, t as int)),
        r is Ok <==> items@.len() > t && !has_dup(eval_points(items@, t as int)),
        r is Ok && t == 0 ==> r.unwrap().ok() && r.unwrap().model() == sample_models(
            items@, t as int)[0],
        r is Ok && t > 0 ==> r.unwrap().ok() && r.unwrap().model() == lagrange_sum(
            eval_points(items@, t as int), sample_models(items@, t as int), t + 1),
        r is Ok ==> forall|q: int| 0 <= q < t + 1 ==> inv_mod(
            #[trigger] denom(eval_points(items@, t as int), q)) < fr_order() && (denom(
            eval_points(items@, t as int), q) * inv_mod(denom(eval_points(items@, t as int), q)))
            % fr_order() == 1,
{
    let ghost xs = eval_points(items@, t as int);
    let ghost ms = sample_models(items@, t as int);

    let mut xs_v: Vec<Scalar> = Vec::new();
    let mut es: Vec<C> = Vec::new();
    let mut k: usize = 0;
    while k < items.len() && k <= t
        invariant
            forall|q: int| 0 <= q < items@.len() ==> (#[trigger] items@[q]).1.ok(),
            0 <= k <= items@.len(),
            k <= t + 1,
            xs_v@.len() == k,
            es@.len() == k,
            k > t ==> k == t + 1,
            forall|q: int| 0 <= q < k ==> (#[trigger] xs_v@[q]).wf()
                && xs_v@[q]@ == items@[q].0 + 1,
            forall|q: int| 0 <= q < k ==> (#[trigger] es@[q]).ok()
                && es@[q].model() == items@[q].1.model(),
        decreases items@.len() - k,
    {
        xs_v.push(into_fr_plus_1(items[k].0));
        es.push(items[k].1.elem_dup());
        k += 1;
    }

    if es.len() <= t {
        proof {
            assert(items@.len() <= t);
        }
        return Err(Error::NotEnoughShares);
    }

    let n = es.len();
    proof {
        assert(n == t + 1);
        assert(xs.len() == n && ms.len() == n);
        assert(forall|q: int| 0 <= q < n ==> xs[q] == items@.take(t + 1)[q].0 + 1
            && ms[q] == items@.take(t + 1)[q].1.model());
        assert(forall|q: int| 0 <= q < n ==> xs_v@[q]@ == xs[q] && es@[q].model() == ms[q]);
        assert(forall|q: int| 0 <= q < n ==> xs[q] < fr_order());
    }

    if t == 0 {
        proof {
            assert(!has_dup(xs));
            lemma_small_mod(1, fr_order());
            assert(denom_pre(xs, 0, 0) == 1);
            assert(denom(xs, 0) == 1);
            assert(1nat < fr_order() && ((1nat * 1nat) % fr_order()) == 1);
            assert(inv_mod(1nat) < fr_order() && ((1nat * inv_mod(1nat)) % fr_order()) == 1);
        }
        return Ok(es[0].elem_dup());
    }

    // Forward pass: x_prod[i] holds the product of the evaluation points
    // before the i-th.
    let mut x_prod: Vec<Scalar> = Vec::new();
    let mut tmp = Scalar::one();
    x_prod.push(tmp);
    let mut fi: usize = 0;
    while fi < t
        invariant
            0 < n <= xs.len(),
            n == t + 1,
            n == xs_v@.len(),
            forall|q: int| 0 <= q < n ==> (#[trigger] xs_v@[q]).wf() && xs_v@[q]@ == xs[q],
            0 <= fi <= t,
            x_prod@.len() == fi + 1,
            tmp.wf(),
            tmp@ == pfx_prod(xs, fi as int),
            forall|q: int| 0 <= q <= fi ==> (#[trigger] x_prod@[q]).wf()
                && x_prod@[q]@ == pfx_prod(xs, q),
        decreases t - fi,
    {
        tmp = fr_mul(&tmp, &xs_v[fi]);
        x_prod.push(tmp);
        fi += 1;
    }

    // Backward pass: fold in the product of the evaluation points after the
    // i-th, so that x_prod[i] becomes the product of all points but the
    // i-th.
    let mut back = Scalar::one();
    let mut bi: usize = n - 1;
    proof {
        lemma_mul_basics(pfx_prod(xs, n - 1) as int);
        lemma_small_mod(pfx_prod(xs, n - 1), fr_order());
        assert(x_prod@[n - 1]@ == prod_except(xs, n - 1));
    }
    while bi > 0
        invariant
            n == t + 1,
            t > 0,
            n == xs_v@.len(),
            n == xs.len(),
            forall|q: int| 0 <= q < n ==> (#[trigger] xs_v@[q]).wf() && xs_v@[q]@ == xs[q],
            0 <= bi < n,
            x_prod@.len() == n,
            back.wf(),
            back@ == sfx_prod(xs, bi as int + 1, n as int),
            forall|q: int| 0 <= q < bi ==> (#[trigger] x_prod@[q]).wf()
                && x_prod@[q]@ == pfx_prod(xs, q),
            forall|q: int| bi <= q < n ==> (#[trigger] x_prod@[q]).wf()
                && x_prod@[q]@ == prod_except(xs, q),
        decreases bi,
    {
        bi -= 1;
        back = fr_mul(&back, &xs_v[bi + 1]);
        x_prod[bi] = fr_mul(&x_prod[bi], &back);
        proof {
            assert(x_prod@[bi as int]@ == prod_except(xs, bi as int));
        }
    }

    // Accumulate each sample scaled by its Lagrange basis coefficient; a
    // zero difference of evaluation points surfaces as a missing inverse.
    let mut result = C::elem_zero();
    let mut i: usize = 0;
    while i < n
        invariant
            forall|q: int| 0 <= q < items@.len() ==> (#[trigger] items@[q]).1.ok(),
            n == t + 1,
            t > 0,
            n == xs_v@.len(),
            n == es@.len(),
            n == xs.len(),
            n == ms.len(),
            items@.len() > t,
            xs == eval_points(items@, t as int),
            ms == sample_models(items@, t as int),
            forall|q: int| 0 <= q < n ==> (#[trigger] xs_v@[q]).wf() && xs_v@[q]@ == xs[q]
                && xs[q] < fr_order(),
            forall|q: int| 0 <= q < n ==> (#[trigger] es@[q]).ok() && es@[q].model() == ms[q],
            0 <= i <= n,
            x_prod@.len() == n,
            forall|q: int| 0 <= q < n ==> (#[trigger] x_prod@[q]).wf()
                && x_prod@[q]@ == prod_except(xs, q),
            result.ok(),
            result.model() == lagrange_sum(xs, ms, i as int),
            forall|a: int, b: int| 0 <= a < i && 0 <= b < n && a != b ==> xs[a] != xs[b],
            forall|q: int| 0 <= q < i ==> inv_mod(#[trigger] denom(xs, q)) < fr_order() && (
                denom(xs, q) * inv_mod(denom(xs, q))) % fr_order() == 1,
        decreases n - i,
    {
        let mut den = Scalar::one();
        let mut j: usize = 0;
        while j < n
            invariant
                n == xs_v@.len(),
                n == xs.len(),
                0 <= i < n,
                forall|q: int| 0 <= q < n ==> (#[trigger] xs_v@[q]).wf() && xs_v@[q]@ == xs[q]
                    && xs[q] < fr_order(),
                0 <= j <= n,
                den.wf(),
                den@ == denom_pre(xs, i as int, j as int),
                (den@ != 0) <==> (forall|q: int| 0 <= q < j && q != i ==> sub_mod(
                    xs[q], xs[i as int]) != 0),
            decreases n - j,
        {
            if j != i {
                let diff = fr_sub(&xs_v[j], &xs_v[i]);
                proof {
                    assert(diff@ == sub_mod(xs[j as int], xs[i as int]));
                    if den@ == 0 {
                        lemma_mul_basics(diff@ as int);
                        lemma_small_mod(0, fr_order());
                    }
                    if diff@ == 0 {
                        lemma_mul_basics(den@ as int);
                        lemma_small_mod(0, fr_order());
                    }
                }
                den = fr_mul(&den, &diff);
            } else {
                proof {
                    lemma_mul_basics(den@ as int);
                    lemma_small_mod(den@, fr_order());
                    assert(denom_pre(xs, i as int, j as int + 1) == (denom_pre(
                        xs, i as int, j as int) * 1) % fr_order());
                }
            }
            j += 1;
        }
        proof {
            assert(den@ == denom(xs, i as int));
        }
        match fr_inverse(&den) {
            None => {
                proof {
                    let ii = i as int;
                    assert(!(forall|q: int| 0 <= q < n && q != ii ==> sub_mod(xs[q], xs[ii])
                        != 0));
                    let q = choose|q: int| 0 <= q < n && q != ii && sub_mod(xs[q], xs[ii]) == 0;
                    lemma_sub_mod_zero(xs[q], xs[ii]);
                    if q < ii {
                        assert(0 <= q < ii < xs.len() && xs[q] == xs[ii]);
                    } else {
                        assert(0 <= ii < q < xs.len() && xs[ii] == xs[q]);
                    }
                    assert(has_dup(xs));
                }
                return Err(Error::DuplicateEntry);
            },
            Some(inv) => {
                proof {
                    let ii = i as int;
                    let m = fr_order();
                    assert((den@ * inv@) % m == 1);
                    assert(inv_mod(den@) < m && (den@ * inv_mod(den@)) % m == 1) by {
                        assert(inv@ < m && (den@ * inv@) % m == 1);
                    }
                    lemma_inv_unique(den@, inv@, inv_mod(den@));
                    assert(inv@ == inv_mod(denom(xs, ii)));
                    // every difference for this sample is nonzero
                    assert forall|b: int| 0 <= b < n && b != ii implies xs[ii] != xs[b] by {
                        assert(sub_mod(xs[b], xs[ii]) != 0);
                        lemma_sub_mod_zero(xs[b], xs[ii]);
                    }
                }
                let l0 = fr_mul(&x_prod[i], &inv);
                proof {
                    assert(l0@ == lagrange_coeff(xs, i as int));
                }
                let term = es[i].elem_mul(&l0);
                result = result.elem_add(&term);
                proof {
                    let ii = i as int;
                    lemma_small_mod(lagrange_sum(xs, ms, ii), fr_order());
                    vstd::arithmetic::div_mod::lemma_add_mod_noop(
                        lagrange_sum(xs, ms, ii) as int,
                        ((ms[ii] * lagrange_coeff(xs, ii)) % fr_order()) as int,
                        fr_order() as int,
                    );
                    lemma_small_mod((ms[ii] * lagrange_coeff(xs, ii)) % fr_order(), fr_order());
                    assert(result.model() == lagrange_sum(xs, ms, ii + 1));
                }
            },
        }
        i += 1;
    }
    proof {
        assert(!has_dup(xs));
    }
    Ok(result)
}

} // verus!
