//! Polynomials over a curve's scalar field.
//!
//! A dealing's polynomial has `num_coefficients == threshold` coefficients
//! (degree `threshold - 1`); coefficients come from the seeded deterministic
//! random stream, and for the resharing and product variants the constant
//! term is fixed to the required value.

use vstd::prelude::*;

use crate::curve::{fadd, fmul, lemma_mul_add_fits_u64, order_of, EccCurveType, EccScalar};
use crate::seed::{rng_after, rng_step, Rand, RNG_MODULUS};

verus! {

/// The residues of a sequence of scalars.
pub open spec fn scalar_values(s: Seq<EccScalar>) -> Seq<u64> {
    s.map_values(|e: EccScalar| e.value)
}

/// Horner evaluation of a coefficient sequence at `x`, in the field of
/// order `q`; the empty polynomial evaluates to zero.
pub open spec fn poly_eval_value(q: int, coefficients: Seq<u64>, x: int) -> int
    decreases coefficients.len(),
{
    if coefficients.len() == 0 {
        0
    } else {
        fadd(q, coefficients[0] as int, fmul(q, x, poly_eval_value(q, coefficients.skip(1), x)))
    }
}

/// A polynomial over a curve's scalar field, lowest coefficient first.
#[derive(Clone, Debug, PartialEq, Eq)]
pub struct Polynomial {
    pub curve: EccCurveType,
    pub coefficients: Vec<EccScalar>,
}

impl Polynomial {
    /// Every coefficient is a well-formed scalar of the polynomial's curve.
    pub open spec fn wf(self) -> bool {
        forall|i: int|
            0 <= i < self.coefficients@.len() ==> (#[trigger] self.coefficients@[i]).wf()
                && self.coefficients@[i].curve == self.curve
    }

    /// The residues of the coefficients.
    pub open spec fn values(self) -> Seq<u64> {
        scalar_values(self.coefficients@)
    }

    pub fn curve_type(&self) -> (r: EccCurveType)
        ensures
            r == self.curve,
    {
        self.curve
    }

    /// A polynomial whose coefficients are all drawn from the deterministic
    /// random stream.
    pub fn random(curve: EccCurveType, num_coefficients: usize, rng: &mut Rand) -> (r: Polynomial)
        requires
            old(rng).wf(),
        ensures
            r.curve == curve,
            r.coefficients@.len() == num_coefficients,
            forall|i: int|
                0 <= i < num_coefficients ==> (#[trigger] r.coefficients@[i]) == (EccScalar {
                    curve,
                    value: rng_after(old(rng).state as int, (i + 1) as nat) as u64,
                }),
            final(rng).state == rng_after(old(rng).state as int, num_coefficients as nat),
            final(rng).wf(),
            r.wf(),
    {
        let ghost s0 = old(rng).state as int;
        let mut coefficients: Vec<EccScalar> = Vec::new();
        let mut i: usize = 0;
        while i < num_coefficients
            invariant
                i <= num_coefficients,
                0 <= s0 < RNG_MODULUS,
                coefficients@.len() == i,
                forall|j: int|
                    0 <= j < i ==> (#[trigger] coefficients@[j]) == (EccScalar {
                        curve,
                        value: rng_after(s0, (j + 1) as nat) as u64,
                    }),
                rng.state == rng_after(s0, i as nat),
                rng.wf(),
            decreases num_coefficients - i,
    {
            let scalar = EccScalar::random(curve, rng);
            proof {
                crate::seed::lemma_rng_after_bound(s0, (i + 1) as nat);
                assert(rng_step(rng_after(s0, i as nat)) == rng_after(s0, (i + 1) as nat));
            }
            coefficients.push(scalar);
            i = i + 1;
        }
        proof {
            assert forall|i: int| 0 <= i < num_coefficients implies (
            #[trigger] coefficients@[i]).wf() && coefficients@[i].curve == curve by {
                crate::seed::lemma_rng_after_bound(s0, (i + 1) as nat);
            }
        }
        Polynomial { curve, coefficients }
    }

    /// A polynomial with the given constant term, the remaining coefficients
    /// drawn from the deterministic random stream.
    pub fn random_with_constant(
        constant: &EccScalar,
        num_coefficients: usize,
        rng: &mut Rand,
    ) -> (r: Polynomial)
        requires
            old(rng).wf(),
            constant.wf(),
            num_coefficients >= 1,
        ensures
            r.curve == constant.curve,
            r.coefficients@.len() == num_coefficients,
            r.coefficients@[0] == *constant,
            forall|i: int|
                1 <= i < num_coefficients ==> (#[trigger] r.coefficients@[i]) == (EccScalar {
                    curve: constant.curve,
                    value: rng_after(old(rng).state as int, i as nat) as u64,
                }),
            final(rng).state == rng_after(
                old(rng).state as int,
                (num_coefficients - 1) as nat,
            ),
            final(rng).wf(),
            r.wf(),
    {
        let ghost s0 = old(rng).state as int;
        let curve = constant.curve;
        let mut coefficients: Vec<EccScalar> = Vec::new();
        coefficients.push(*constant);
        let mut i: usize = 1;
        while i < num_coefficients
            invariant
                1 <= i <= num_coefficients,
                0 <= s0 < RNG_MODULUS,
                coefficients@.len() == i,
                coefficients@[0] == *constant,
                forall|j: int|
                    1 <= j < i ==> (#[trigger] coefficients@[j]) == (EccScalar {
                        curve,
                        value: rng_after(s0, j as nat) as u64,
                    }),
                rng.state == rng_after(s0, (i - 1) as nat),
                rng.wf(),
            decreases num_coefficients - i,
    {
            let scalar = EccScalar::random(curve, rng);
            proof {
                crate::seed::lemma_rng_after_bound(s0, i as nat);
                assert(rng_step(rng_after(s0, (i - 1) as nat)) == rng_after(s0, i as nat));
            }
            coefficients.push(scalar);
            i = i + 1;
        }
        proof {
            assert forall|i: int| 0 <= i < num_coefficients implies (
            #[trigger] coefficients@[i]).wf() && coefficients@[i].curve == curve by {
                if i >= 1 {
                    crate::seed::lemma_rng_after_bound(s0, i as nat);
                }
            }
        }
        Polynomial { curve, coefficients }
    }

    /// Evaluate the polynomial at `x` by Horner's rule.
    pub fn evaluate_at(&self, x: &EccScalar) -> (r: EccScalar)
        requires
            self.wf(),
            x.wf(),
            x.curve == self.curve,
        ensures
            r.curve == self.curve,
            r.value == poly_eval_value(order_of(self.curve), self.values(), x.value as int),
            r.wf(),
    {
        let q = self.curve.order();
        let mut accumulator: u64 = 0;
        let mut i: usize = self.coefficients.len();
        while i > 0
            invariant
                i <= self.coefficients@.len(),
                self.wf(),
                x.wf(),
                x.curve == self.curve,
                q == order_of(self.curve),
                accumulator as int == poly_eval_value(
                    q as int,
                    self.values().skip(i as int),
                    x.value as int,
                ),
                accumulator < q,
            decreases i,
    {
            i = i - 1;
            proof {
                lemma_mul_add_fits_u64(x.value as int, accumulator as int, q as int);
                let tail = self.values().skip(i as int);
                assert(tail[0] == self.values()[i as int]);
                assert(tail.skip(1) =~= self.values().skip(i + 1));
                assert(self.values()[i as int] == self.coefficients@[i as int].value);
            }
            let c = self.coefficients[i].value;
            let xa = (x.value * accumulator) % q;
            accumulator = (c + xa) % q;
        }
        proof {
            assert(self.values().skip(0) =~= self.values());
        }
        EccScalar { curve: self.curve, value: accumulator }
    }
}

} // verus!
