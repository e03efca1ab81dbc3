//! A secret-sharing polynomial over `Fr` and its public commitment in `G2`.
//!
//! A polynomial of degree `t` carries the shared secret as its value at
//! zero; its value at `i + 1` is share number `i`.  The commitment lifts
//! each coefficient into `G2` by scalar multiplication of the generator, so
//! that shares can be verified publicly: evaluating the commitment at `x`
//! yields the generator raised to the polynomial's value at `x`.

use vstd::prelude::*;
use vstd::arithmetic::div_mod::{lemma_add_mod_noop, lemma_small_mod};
use crate::error::Error;
use crate::field::{Scalar, fr_order, fr_add, fr_mul, fr_random};
use crate::group::{g2_ok, g2_dlog, g2_one, g2_zero, g2_add, g2_mul};
use pairing::bls12_381::G2;

verus! {

/// Horner evaluation of a coefficient sequence (constant term first) at
/// `x`, modulo the group order.
pub open spec fn poly_eval(c: Seq<nat>, x: nat) -> nat
    decreases c.len(),
{
    if c.len() == 0 {
        0
    } else {
        (c[0] + x * poly_eval(c.subrange(1, c.len() as int), x)) % fr_order()
    }
}

/// One Horner step folds into the spec evaluation: appending a coefficient
/// in front multiplies the tail's value by `x` and adds the coefficient.
proof fn lemma_poly_eval_step(c: Seq<nat>, x: nat, i: int)
    requires
        0 <= i < c.len(),
        x < fr_order(),
        c[i] < fr_order(),
    ensures
        poly_eval(c.subrange(i, c.len() as int), x)
            == ((poly_eval(c.subrange(i + 1, c.len() as int), x) * x) % fr_order() + c[i])
                % fr_order(),
{
    let tail = c.subrange(i, c.len() as int);
    assert(tail[0] == c[i]);
    assert(tail.subrange(1, tail.len() as int) =~= c.subrange(i + 1, c.len() as int));
    let tv = poly_eval(c.subrange(i + 1, c.len() as int), x);
    assert(poly_eval(tail, x) == (c[i] + x * tv) % fr_order());
    lemma_add_mod_noop((tv * x) as int, c[i] as int, fr_order() as int);
    lemma_small_mod(c[i] as nat, fr_order());
    assert(tv * x == x * tv) by (nonlinear_arith);
    assert((((tv * x) % fr_order() + c[i]) % fr_order()) as int == (((tv * x) as int % fr_order() as int
        + c[i] as int) % fr_order() as int));
    assert((((tv * x) as int % fr_order() as int + c[i] as int) % fr_order() as int) == (((tv * x) as int
        + c[i] as int) % fr_order() as int));
}

/// A degree-`t` secret-sharing polynomial: `t + 1` scalar coefficients,
/// constant term first.
pub struct Poly {
    /// The coefficients, constant term first.
    pub coeff: Vec<Scalar>,
}

impl View for Poly {
    type V = Seq<nat>;

    open spec fn view(&self) -> Seq<nat> {
        self.coeff@.map_values(|s: Scalar| s@)
    }
}

impl Poly {
    /// Every coefficient is reduced, and there is at least one.
    pub open spec fn wf(self) -> bool {
        self@.len() >= 1 && forall|i: int| 0 <= i < self@.len() ==> self@[i] < fr_order()
    }

    /// The polynomial's degree: one less than its number of coefficients.
    pub fn degree(&self) -> (r: usize)
        requires
            self.wf(),
        ensures
            r + 1 == self@.len(),
    {
        self.coeff.len() - 1
    }

    /// Draws `threshold + 1` independent uniform coefficients, or fails
    /// with [`Error::DegreeTooHigh`] when that count cannot be represented.
    pub fn try_random(threshold: usize) -> (r: Result<Poly, Error>)
        ensures
            threshold == usize::MAX <==> r is Err,
            r is Err ==> r == Err::<Poly, Error>(Error::DegreeTooHigh),
            r is Ok ==> r.unwrap().wf() && r.unwrap()@.len() == threshold + 1,
    {
        if threshold == usize::MAX {
            return Err(Error::DegreeTooHigh);
        }
        let mut coeff: Vec<Scalar> = Vec::new();
        let mut i: usize = 0;
        while i < threshold + 1
            invariant
                threshold < usize::MAX,
                0 <= i <= threshold + 1,
                coeff@.len() == i,
                forall|j: int| 0 <= j < i ==> coeff@[j].wf(),
            decreases threshold + 1 - i,
        {
            coeff.push(fr_random());
            i += 1;
        }
        Ok(Poly { coeff })
    }

    /// Draws a random polynomial of the given degree.  The threshold must
    /// be representable; [`Poly::try_random`] reports the failure instead.
    pub fn random(threshold: usize) -> (r: Poly)
        requires
            threshold < usize::MAX,
        ensures
            r.wf(),
            r@.len() == threshold + 1,
    {
        match Poly::try_random(threshold) {
            Ok(poly) => poly,
            Err(_) => {
                proof {
                    assert(false);
                }
                Poly { coeff: Vec::new() }
            },
        }
    }

    /// Horner evaluation of the polynomial at `x`, modulo the group order.
    pub fn evaluate(&self, x: &Scalar) -> (r: Scalar)
        requires
            self.wf(),
            x.wf(),
        ensures
            r.wf(),
            r@ == poly_eval(self@, x@),
    {
        let ghost view = self@;
        let mut result = Scalar::zero();
        let mut i: usize = self.coeff.len();
        proof {
            assert(view.subrange(i as int, view.len() as int) =~= Seq::<nat>::empty());
        }
        while i > 0
            invariant
                self.wf(),
                x.wf(),
                view == self@,
                0 <= i <= view.len(),
                result.wf(),
                result@ == poly_eval(view.subrange(i as int, view.len() as int), x@),
            decreases i,
        {
            i -= 1;
            proof {
                assert(view[i as int] == self.coeff@[i as int]@);
            }
            let scaled = fr_mul(&result, x);
            result = fr_add(&scaled, &self.coeff[i]);
            proof {
                lemma_poly_eval_step(view, x@, i as int);
            }
        }
        proof {
            assert(view.subrange(0, view.len() as int) =~= view);
        }
        result
    }

    /// Lifts each coefficient into `G2` by scalar multiplication of the
    /// generator, committing publicly to the polynomial.
    pub fn commitment(&self) -> (r: Commitment)
        requires
            self.wf(),
        ensures
            r.wf(),
            r@ =~= self@,
    {
        let gen = g2_one();
        let mut coeff: Vec<G2> = Vec::new();
        let mut i: usize = 0;
        while i < self.coeff.len()
            invariant
                self.wf(),
                0 <= i <= self@.len(),
                g2_ok(gen),
                g2_dlog(gen) == 1,
                coeff@.len() == i,
                forall|j: int| 0 <= j < i ==> g2_ok(#[trigger] coeff@[j])
                    && g2_dlog(coeff@[j]) == self@[j],
            decreases self@.len() - i,
        {
            proof {
                assert(self@[i as int] == self.coeff@[i as int]@);
            }
            let lifted = g2_mul(&gen, &self.coeff[i]);
            proof {
                lemma_small_mod(self@[i as int], fr_order());
            }
            coeff.push(lifted);
            i += 1;
        }
        let r = Commitment { coeff };
        proof {
            assert(r@ =~= self@);
        }
        r
    }
}

/// The public image of a [`Poly`]: its coefficients lifted into `G2`.
pub struct Commitment {
    /// The lifted coefficients, constant term first.
    pub coeff: Vec<G2>,
}

impl View for Commitment {
    type V = Seq<nat>;

    open spec fn view(&self) -> Seq<nat> {
        self.coeff@.map_values(|p: G2| g2_dlog(p))
    }
}

impl Commitment {
    /// Every coefficient is a well-formed subgroup point, and there is at
    /// least one.
    pub open spec fn wf(self) -> bool {
        self@.len() >= 1 && forall|i: int| 0 <= i < self.coeff@.len() ==> g2_ok(
            #[trigger] self.coeff@[i])
    }

    /// The committed polynomial's degree.
    pub fn degree(&self) -> (r: usize)
        requires
            self.wf(),
        ensures
            r + 1 == self@.len(),
    {
        self.coeff.len() - 1
    }

    /// An owned copy of the commitment.
    pub fn dup(&self) -> (r: Commitment)
        requires
            self.wf(),
        ensures
            r.wf(),
            r@ =~= self@,
    {
        let mut coeff: Vec<G2> = Vec::new();
        let mut i: usize = 0;
        while i < self.coeff.len()
            invariant
                self.wf(),
                0 <= i <= self.coeff@.len(),
                coeff@ =~= self.coeff@.take(i as int),
            decreases self.coeff@.len() - i,
        {
            coeff.push(self.coeff[i]);
            i += 1;
        }
        proof {
            assert(coeff@ =~= self.coeff@);
        }
        Commitment { coeff }
    }

    /// Horner evaluation of the commitment at `x`: the result is the
    /// generator raised to the underlying polynomial's value at `x`.
    pub fn evaluate(&self, x: &Scalar) -> (r: G2)
        requires
            self.wf(),
            x.wf(),
        ensures
            g2_ok(r),
            g2_dlog(r) == poly_eval(self@, x@),
    {
        let ghost view = self@;
        let mut result = g2_zero();
        let mut i: usize = self.coeff.len();
        proof {
            assert(view.subrange(i as int, view.len() as int) =~= Seq::<nat>::empty());
        }
        while i > 0
            invariant
                self.wf(),
                x.wf(),
                view == self@,
                0 <= i <= view.len(),
                g2_ok(result),
                g2_dlog(result) == poly_eval(view.subrange(i as int, view.len() as int), x@),
            decreases i,
        {
            i -= 1;
            let scaled = g2_mul(&result, x);
            result = g2_add(&scaled, &self.coeff[i]);
            proof {
                lemma_poly_eval_step(view, x@, i as int);
            }
        }
        proof {
            assert(view.subrange(0, view.len() as int) =~= view);
        }
        result
    }
}

} // verus!
