//! Zero-knowledge proofs binding a new commitment to prior commitments.
//!
//! Two sigma-protocol style proof systems: equality of the opening of a
//! Pedersen commitment's value component and a Simple commitment's constant
//! term, and correctness of a committed product.  Challenges are derived by
//! hashing the proof's random commitments together with the associated data,
//! under a distinct domain tag per proof system.

use vstd::prelude::*;
use vstd::arithmetic::div_mod::{
    lemma_add_mod_noop, lemma_mod_bound, lemma_mul_mod_noop_right, lemma_small_mod,
};

use crate::curve::{fadd, fmul, fsub, order_of, pedersen_value, EccCurveType, EccPoint,
    EccScalar, PEDERSEN_WEIGHT};
use crate::seed::{absorb_bytes, absorb_bytes_exec, absorb_one, absorb_one_exec, rng_after,
    Seed};
use crate::{ThresholdEcdsaError, ThresholdEcdsaResult};

verus! {

/// Domain tag of the equality-of-openings challenge chain.
pub const PROOF_OF_EQUAL_OPENINGS_DST: u64 = 3;

/// Domain tag of the product-proof challenge chain.
pub const PROOF_OF_PRODUCT_DST: u64 = 4;

/// Challenge of the equality-of-openings proof, binding the random
/// commitment and both statement values.
pub open spec fn eq_challenge(q: int, rand_commitment: int, masked: int, simple: int, ad: Seq<
    u8,
>) -> int {
    absorb_one(
        q,
        absorb_one(
            q,
            absorb_one(q, absorb_bytes(q, PROOF_OF_EQUAL_OPENINGS_DST as int, ad), rand_commitment),
            masked,
        ),
        simple,
    )
}

/// Challenge of the product proof, binding both random commitments and the
/// three statement values.
pub open spec fn product_challenge(
    q: int,
    c1: int,
    c2: int,
    a_value: int,
    b_value: int,
    p_value: int,
    ad: Seq<u8>,
) -> int {
    absorb_one(
        q,
        absorb_one(
            q,
            absorb_one(
                q,
                absorb_one(
                    q,
                    absorb_one(q, absorb_bytes(q, PROOF_OF_PRODUCT_DST as int, ad), c1),
                    c2,
                ),
                a_value,
            ),
            b_value,
        ),
        p_value,
    )
}

/// Reduction of a sigma-protocol response: `base + c * w`, all mod `q`, with
/// `base` already reduced.
pub proof fn lemma_mod_affine(q: int, base: int, c: int, w: int)
    requires
        q >= 2,
        0 <= base < q,
    ensures
        fadd(q, base, fmul(q, c, w)) == (base + c * w) % q,
{
    lemma_small_mod(base as nat, q as nat);
    lemma_mod_bound(c * w, q);
    lemma_add_mod_noop(base, c * w, q);
}

/// Pulling an inner reduction out of a product: `a * (x % q) == a * x (mod q)`.
pub proof fn lemma_fmul_reduced(q: int, a: int, x: int)
    requires
        q >= 2,
    ensures
        fmul(q, a, x % q) == (a * x) % q,
{
    lemma_mul_mod_noop_right(a, x, q);
}

/// Pulling an inner reduction out of a sum: `(x % q) + (y % q) == x + y (mod q)`.
pub proof fn lemma_fadd_reduced(q: int, x: int, y: int)
    requires
        q >= 2,
    ensures
        fadd(q, x % q, y % q) == (x + y) % q,
{
    lemma_add_mod_noop(x, y, q);
}

/// A proof that a Pedersen commitment's value component equals a Simple
/// commitment's opening: a Schnorr-style proof of knowledge of the masking
/// scalar under the second generator.
#[derive(Clone, Copy, Debug, PartialEq, Eq, Structural)]
pub struct ProofOfEqualOpenings {
    pub curve: EccCurveType,
    /// Commitment to the proof's randomness: `h^r`.
    pub rand_commitment: u64,
    /// Response `r + c * masking`.
    pub response: u64,
}

/// The proof [`ProofOfEqualOpenings::create`] returns, as a function of the
/// seed state, the masking scalar and the associated data.
pub open spec fn eq_proof_spec(
    curve: EccCurveType,
    seed_state: int,
    secret: int,
    masking: int,
    ad: Seq<u8>,
) -> ProofOfEqualOpenings {
    let q = order_of(curve);
    let r = rng_after(seed_state, 1);
    let rand_commitment = fmul(q, PEDERSEN_WEIGHT as int, r);
    let c = eq_challenge(q, rand_commitment, pedersen_value(q, secret, masking), secret % q, ad);
    let response = fadd(q, r % q, fmul(q, c, masking));
    ProofOfEqualOpenings {
        curve,
        rand_commitment: rand_commitment as u64,
        response: response as u64,
    }
}

impl ProofOfEqualOpenings {
    pub open spec fn wf(self) -> bool {
        &&& self.rand_commitment < order_of(self.curve)
        &&& self.response < order_of(self.curve)
    }

    /// Create the proof for a secret shared under a Pedersen commitment with
    /// the given masking scalar.
    pub fn create(
        seed: Seed,
        secret: &EccScalar,
        masking: &EccScalar,
        associated_data: &[u8],
    ) -> (r: ProofOfEqualOpenings)
        requires
            seed.wf(),
            secret.wf(),
            masking.wf(),
            secret.curve == masking.curve,
        ensures
            r == eq_proof_spec(masking.curve, seed.state as int, secret.value as int,
                masking.value as int, associated_data@),
            r.wf(),
    {
        let curve = masking.curve_type();
        let q = curve.order();
        let mut rng = seed.into_rng();
        let r_scalar = EccScalar::random(curve, &mut rng);
        proof {
            assert(rng_after(seed.state as int, 0) == seed.state as int);
            assert(rng_after(seed.state as int, 1) == crate::seed::rng_step(
                rng_after(seed.state as int, 0),
            ));
            crate::curve::lemma_mul_add_fits_u64(PEDERSEN_WEIGHT as int, r_scalar.value as int, 0);
        }
        let rand_commitment = (PEDERSEN_WEIGHT * r_scalar.value) % q;
        let masked_value = EccPoint::pedersen(secret, masking).value;
        let c = absorb_one_exec(
            q,
            absorb_one_exec(
                q,
                absorb_one_exec(
                    q,
                    absorb_bytes_exec(q, PROOF_OF_EQUAL_OPENINGS_DST, associated_data),
                    rand_commitment,
                ),
                masked_value,
            ),
            secret.value % q,
        );
        proof {
            lemma_small_mod(secret.value as nat, q as nat);
        }
        proof {
            crate::curve::lemma_mul_add_fits_u64(c as int, masking.value as int, 0);
            lemma_small_mod(r_scalar.value as nat, q as nat);
        }
        let cm = (c * masking.value) % q;
        let response = (r_scalar.value + cm) % q;
        ProofOfEqualOpenings { curve, rand_commitment, response }
    }

    /// What [`ProofOfEqualOpenings::verify`] returns: the curves must agree
    /// and the response must re-commit the challenge equation.
    pub open spec fn verify_spec(
        self,
        masked_commitment: EccPoint,
        simple_commitment: EccPoint,
        ad: Seq<u8>,
    ) -> ThresholdEcdsaResult<()> {
        if masked_commitment.curve != self.curve || simple_commitment.curve != self.curve {
            Err(ThresholdEcdsaError::CurveMismatch)
        } else {
            let q = order_of(self.curve);
            let c = eq_challenge(
                q,
                self.rand_commitment as int,
                masked_commitment.value as int % q,
                simple_commitment.value as int % q,
                ad,
            );
            let difference = fsub(q, masked_commitment.value as int, simple_commitment.value as int);
            let lhs = fmul(q, PEDERSEN_WEIGHT as int, self.response as int);
            let rhs = fadd(q, self.rand_commitment as int, fmul(q, c, difference));
            if lhs == rhs {
                Ok(())
            } else {
                Err(ThresholdEcdsaError::InvalidProof)
            }
        }
    }

    /// Verify the proof against the prior commitment's evaluation and the
    /// new commitment's constant term.
    pub fn verify(
        &self,
        masked_commitment: &EccPoint,
        simple_commitment: &EccPoint,
        associated_data: &[u8],
    ) -> (r: ThresholdEcdsaResult<()>)
        requires
            self.wf(),
            masked_commitment.wf(),
            simple_commitment.wf(),
        ensures
            r == self.verify_spec(*masked_commitment, *simple_commitment, associated_data@),
    {
        let curve = self.curve;
        if !(masked_commitment.curve == curve) || !(simple_commitment.curve == curve) {
            return Err(ThresholdEcdsaError::CurveMismatch);
        }
        let q = curve.order();
        let c = absorb_one_exec(
            q,
            absorb_one_exec(
                q,
                absorb_one_exec(
                    q,
                    absorb_bytes_exec(q, PROOF_OF_EQUAL_OPENINGS_DST, associated_data),
                    self.rand_commitment,
                ),
                masked_commitment.value % q,
            ),
            simple_commitment.value % q,
        );
        let difference = (masked_commitment.value + q - simple_commitment.value) % q;
        proof {
            crate::curve::lemma_mul_add_fits_u64(PEDERSEN_WEIGHT as int, self.response as int, 0);
            crate::curve::lemma_mul_add_fits_u64(c as int, difference as int, 0);
        }
        let lhs = (PEDERSEN_WEIGHT * self.response) % q;
        let rhs = (self.rand_commitment + (c * difference) % q) % q;
        if lhs == rhs {
            Ok(())
        } else {
            Err(ThresholdEcdsaError::InvalidProof)
        }
    }
}

/// The equality-of-openings proof created for a consistent statement
/// verifies: completeness of the proof system.
pub proof fn lemma_eq_proof_completeness(
    curve: EccCurveType,
    seed_state: int,
    secret: int,
    masking: int,
    masked_commitment: EccPoint,
    simple_commitment: EccPoint,
    ad: Seq<u8>,
)
    requires
        0 <= seed_state < crate::seed::RNG_MODULUS,
        0 <= secret < order_of(curve),
        0 <= masking < order_of(curve),
        masked_commitment.curve == curve,
        masked_commitment.value == pedersen_value(order_of(curve), secret, masking),
        simple_commitment.curve == curve,
        simple_commitment.value == secret,
    ensures
        eq_proof_spec(curve, seed_state, secret, masking, ad).verify_spec(
            masked_commitment,
            simple_commitment,
            ad,
        ) == ThresholdEcdsaResult::<()>::Ok(()),
{
    let q = order_of(curve);
    let lam = PEDERSEN_WEIGHT as int;
    crate::seed::lemma_rng_after_bound(seed_state, 1);
    let r = rng_after(seed_state, 1);
    lemma_small_mod(r as nat, q as nat);
    let rc = fmul(q, lam, r);
    lemma_small_mod(secret as nat, q as nat);
    lemma_mod_bound(lam * masking, q);
    lemma_mod_bound(secret + (lam * masking) % q, q);
    lemma_small_mod((pedersen_value(q, secret, masking)) as nat, q as nat);
    let c = eq_challenge(q, rc, pedersen_value(q, secret, masking), secret, ad);
    lemma_mod_bound(lam * r, q);
    // The response reduces to r + c * masking mod q.
    let z = fadd(q, r % q, fmul(q, c, masking));
    lemma_mod_affine(q, r, c, masking);
    assert(z == (r + c * masking) % q);
    // The verified difference is exactly the masking term.
    let w = fmul(q, lam, masking);
    lemma_mod_bound(lam * masking, q);
    let p_value = masked_commitment.value as int;
    assert(p_value == fadd(q, secret, w));
    let difference = fsub(q, p_value, secret);
    assert(difference == ((secret + w) % q + q - secret) % q);
    vstd::arithmetic::div_mod::lemma_add_mod_noop_right(q - secret, secret + w, q);
    assert(((secret + w) % q + (q - secret)) % q == (q - secret + (secret + w)) % q);
    assert(q - secret + (secret + w) == q + w);
    vstd::arithmetic::div_mod::lemma_mod_add_multiples_vanish(w, q);
    lemma_small_mod(w as nat, q as nat);
    assert(difference == w);
    // Left side: lam * z == lam * r + lam * c * masking mod q.
    lemma_fmul_reduced(q, lam, r + c * masking);
    assert(fmul(q, lam, z) == (lam * (r + c * masking)) % q);
    // Right side: rc + c * (lam * masking) mod q.
    lemma_fmul_reduced(q, c, lam * masking);
    assert(fmul(q, c, difference) == (c * (lam * masking)) % q);
    lemma_fadd_reduced(q, lam * r, c * (lam * masking));
    assert(fadd(q, rc, fmul(q, c, difference)) == (lam * r + c * (lam * masking)) % q);
    assert(lam * (r + c * masking) == lam * r + c * (lam * masking)) by (nonlinear_arith);
    assert(fmul(q, lam, z) == fadd(q, rc, fmul(q, c, difference)));
}

/// A proof that a Simple-committed value times a Pedersen-committed value
/// equals the constant term of a new Pedersen commitment.
#[derive(Clone, Copy, Debug, PartialEq, Eq, Structural)]
pub struct ProofOfProduct {
    pub curve: EccCurveType,
    /// Commitment to the randomness for the right factor: `g^r1 h^r2`.
    pub rand_commitment_value: u64,
    /// Commitment to the randomness for the product: `A^r1 h^r3`.
    pub rand_commitment_product: u64,
    /// Response `r1 + c * rhs`.
    pub response_value: u64,
    /// Response `r2 + c * rhs_masking`.
    pub response_masking: u64,
    /// Response `r3 + c * product_masking`.
    pub response_product_masking: u64,
}

/// The proof [`ProofOfProduct::create`] returns, as a function of the seed
/// state, the witnesses and the associated data.
pub open spec fn product_proof_spec(
    curve: EccCurveType,
    seed_state: int,
    lhs: int,
    rhs: int,
    rhs_masking: int,
    product: int,
    product_masking: int,
    ad: Seq<u8>,
) -> ProofOfProduct {
    let q = order_of(curve);
    let lam = PEDERSEN_WEIGHT as int;
    let r1 = rng_after(seed_state, 1);
    let r2 = rng_after(seed_state, 2);
    let r3 = rng_after(seed_state, 3);
    let c1 = fadd(q, r1 % q, fmul(q, lam, r2));
    let c2 = fadd(q, fmul(q, lhs, r1), fmul(q, lam, r3));
    let c = product_challenge(
        q,
        c1,
        c2,
        lhs % q,
        pedersen_value(q, rhs, rhs_masking),
        pedersen_value(q, product, product_masking),
        ad,
    );
    ProofOfProduct {
        curve,
        rand_commitment_value: c1 as u64,
        rand_commitment_product: c2 as u64,
        response_value: fadd(q, r1 % q, fmul(q, c, rhs)) as u64,
        response_masking: fadd(q, r2 % q, fmul(q, c, rhs_masking)) as u64,
        response_product_masking: fadd(q, r3 % q, fmul(q, c, product_masking)) as u64,
    }
}

impl ProofOfProduct {
    pub open spec fn wf(self) -> bool {
        &&& self.rand_commitment_value < order_of(self.curve)
        &&& self.rand_commitment_product < order_of(self.curve)
        &&& self.response_value < order_of(self.curve)
        &&& self.response_masking < order_of(self.curve)
        &&& self.response_product_masking < order_of(self.curve)
    }

    /// Create the proof for the product of a Simple-committed left factor
    /// and a Pedersen-committed right factor.
    pub fn create(
        seed: Seed,
        lhs: &EccScalar,
        rhs: &EccScalar,
        rhs_masking: &EccScalar,
        product: &EccScalar,
        product_masking: &EccScalar,
        associated_data: &[u8],
    ) -> (r: ProofOfProduct)
        requires
            seed.wf(),
            lhs.wf(),
            rhs.wf(),
            rhs_masking.wf(),
            product.wf(),
            product_masking.wf(),
            lhs.curve == rhs.curve,
            lhs.curve == rhs_masking.curve,
            lhs.curve == product.curve,
            lhs.curve == product_masking.curve,
        ensures
            r == product_proof_spec(
                lhs.curve,
                seed.state as int,
                lhs.value as int,
                rhs.value as int,
                rhs_masking.value as int,
                product.value as int,
                product_masking.value as int,
                associated_data@,
            ),
            r.wf(),
    {
        let curve = lhs.curve_type();
        let q = curve.order();
        let mut rng = seed.into_rng();
        let r1 = EccScalar::random(curve, &mut rng);
        let r2 = EccScalar::random(curve, &mut rng);
        let r3 = EccScalar::random(curve, &mut rng);
        proof {
            let s = seed.state as int;
            assert(rng_after(s, 0) == s);
            assert(rng_after(s, 1) == crate::seed::rng_step(rng_after(s, 0)));
            assert(rng_after(s, 2) == crate::seed::rng_step(rng_after(s, 1)));
            assert(rng_after(s, 3) == crate::seed::rng_step(rng_after(s, 2)));
            crate::curve::lemma_mul_add_fits_u64(PEDERSEN_WEIGHT as int, r2.value as int, 0);
            crate::curve::lemma_mul_add_fits_u64(lhs.value as int, r1.value as int, 0);
            crate::curve::lemma_mul_add_fits_u64(PEDERSEN_WEIGHT as int, r3.value as int, 0);
            lemma_small_mod(r1.value as nat, q as nat);
            lemma_small_mod(r2.value as nat, q as nat);
            lemma_small_mod(r3.value as nat, q as nat);
        }
        let c1 = (r1.value + (PEDERSEN_WEIGHT * r2.value) % q) % q;
        let c2 = ((lhs.value * r1.value) % q + (PEDERSEN_WEIGHT * r3.value) % q) % q;
        let b_value = EccPoint::pedersen(rhs, rhs_masking).value;
        let p_value = EccPoint::pedersen(product, product_masking).value;
        proof {
            lemma_small_mod(lhs.value as nat, q as nat);
        }
        let c = absorb_one_exec(
            q,
            absorb_one_exec(
                q,
                absorb_one_exec(
                    q,
                    absorb_one_exec(
                        q,
                        absorb_one_exec(
                            q,
                            absorb_bytes_exec(q, PROOF_OF_PRODUCT_DST, associated_data),
                            c1,
                        ),
                        c2,
                    ),
                    lhs.value % q,
                ),
                b_value,
            ),
            p_value,
        );
        proof {
            crate::curve::lemma_mul_add_fits_u64(c as int, rhs.value as int, 0);
            crate::curve::lemma_mul_add_fits_u64(c as int, rhs_masking.value as int, 0);
            crate::curve::lemma_mul_add_fits_u64(c as int, product_masking.value as int, 0);
        }
        let response_value = (r1.value + (c * rhs.value) % q) % q;
        let response_masking = (r2.value + (c * rhs_masking.value) % q) % q;
        let response_product_masking = (r3.value + (c * product_masking.value) % q) % q;
        ProofOfProduct {
            curve,
            rand_commitment_value: c1,
            rand_commitment_product: c2,
            response_value,
            response_masking,
            response_product_masking,
        }
    }

    /// What [`ProofOfProduct::verify`] returns: the curves must agree and
    /// both challenge equations must hold.
    pub open spec fn verify_spec(
        self,
        lhs_commitment: EccPoint,
        rhs_commitment: EccPoint,
        product_commitment: EccPoint,
        ad: Seq<u8>,
    ) -> ThresholdEcdsaResult<()> {
        if lhs_commitment.curve != self.curve || rhs_commitment.curve != self.curve
            || product_commitment.curve != self.curve {
            Err(ThresholdEcdsaError::CurveMismatch)
        } else {
            let q = order_of(self.curve);
            let lam = PEDERSEN_WEIGHT as int;
            let c = product_challenge(
                q,
                self.rand_commitment_value as int,
                self.rand_commitment_product as int,
                lhs_commitment.value as int % q,
                rhs_commitment.value as int % q,
                product_commitment.value as int % q,
                ad,
            );
            let lhs1 = fadd(
                q,
                self.response_value as int % q,
                fmul(q, lam, self.response_masking as int),
            );
            let rhs1 = fadd(
                q,
                self.rand_commitment_value as int % q,
                fmul(q, c, rhs_commitment.value as int),
            );
            let lhs2 = fadd(
                q,
                fmul(q, lhs_commitment.value as int, self.response_value as int),
                fmul(q, lam, self.response_product_masking as int),
            );
            let rhs2 = fadd(
                q,
                self.rand_commitment_product as int % q,
                fmul(q, c, product_commitment.value as int),
            );
            if lhs1 == rhs1 && lhs2 == rhs2 {
                Ok(())
            } else {
                Err(ThresholdEcdsaError::InvalidProof)
            }
        }
    }

    /// Verify the proof against the two factor commitments' evaluations and
    /// the new commitment's constant term.
    pub fn verify(
        &self,
        lhs_commitment: &EccPoint,
        rhs_commitment: &EccPoint,
        product_commitment: &EccPoint,
        associated_data: &[u8],
    ) -> (r: ThresholdEcdsaResult<()>)
        requires
            self.wf(),
            lhs_commitment.wf(),
            rhs_commitment.wf(),
            product_commitment.wf(),
        ensures
            r == self.verify_spec(
                *lhs_commitment,
                *rhs_commitment,
                *product_commitment,
                associated_data@,
            ),
    {
        let curve = self.curve;
        if !(lhs_commitment.curve == curve) || !(rhs_commitment.curve == curve)
            || !(product_commitment.curve == curve) {
            return Err(ThresholdEcdsaError::CurveMismatch);
        }
        let q = curve.order();
        let c = absorb_one_exec(
            q,
            absorb_one_exec(
                q,
                absorb_one_exec(
                    q,
                    absorb_one_exec(
                        q,
                        absorb_one_exec(
                            q,
                            absorb_bytes_exec(q, PROOF_OF_PRODUCT_DST, associated_data),
                            self.rand_commitment_value,
                        ),
                        self.rand_commitment_product,
                    ),
                    lhs_commitment.value % q,
                ),
                rhs_commitment.value % q,
            ),
            product_commitment.value % q,
        );
        proof {
            crate::curve::lemma_mul_add_fits_u64(
                PEDERSEN_WEIGHT as int,
                self.response_masking as int,
                0,
            );
            crate::curve::lemma_mul_add_fits_u64(c as int, rhs_commitment.value as int, 0);
            crate::curve::lemma_mul_add_fits_u64(
                lhs_commitment.value as int,
                self.response_value as int,
                0,
            );
            crate::curve::lemma_mul_add_fits_u64(
                PEDERSEN_WEIGHT as int,
                self.response_product_masking as int,
                0,
            );
            crate::curve::lemma_mul_add_fits_u64(c as int, product_commitment.value as int, 0);
            lemma_small_mod(self.response_value as nat, q as nat);
            lemma_small_mod(self.rand_commitment_value as nat, q as nat);
            lemma_small_mod(self.rand_commitment_product as nat, q as nat);
        }
        let lhs1 = (self.response_value + (PEDERSEN_WEIGHT * self.response_masking) % q) % q;
        let rhs1 = (self.rand_commitment_value + (c * rhs_commitment.value) % q) % q;
        let lhs2 = ((lhs_commitment.value * self.response_value) % q + (PEDERSEN_WEIGHT
            * self.response_product_masking) % q) % q;
        let rhs2 = (self.rand_commitment_product + (c * product_commitment.value) % q) % q;
        if lhs1 == rhs1 && lhs2 == rhs2 {
            Ok(())
        } else {
            Err(ThresholdEcdsaError::InvalidProof)
        }
    }
}

/// The product proof created for a consistent statement verifies:
/// completeness of the proof system.
pub proof fn lemma_product_proof_completeness(
    curve: EccCurveType,
    seed_state: int,
    lhs: int,
    rhs: int,
    rhs_masking: int,
    product: int,
    product_masking: int,
    lhs_commitment: EccPoint,
    rhs_commitment: EccPoint,
    product_commitment: EccPoint,
    ad: Seq<u8>,
)
    requires
        0 <= seed_state < crate::seed::RNG_MODULUS,
        0 <= lhs < order_of(curve),
        0 <= rhs < order_of(curve),
        0 <= rhs_masking < order_of(curve),
        0 <= product_masking < order_of(curve),
        product == fmul(order_of(curve), lhs, rhs),
        lhs_commitment.curve == curve,
        lhs_commitment.value == lhs,
        rhs_commitment.curve == curve,
        rhs_commitment.value == pedersen_value(order_of(curve), rhs, rhs_masking),
        product_commitment.curve == curve,
        product_commitment.value == pedersen_value(order_of(curve), product, product_masking),
    ensures
        product_proof_spec(curve, seed_state, lhs, rhs, rhs_masking, product, product_masking,
            ad).verify_spec(lhs_commitment, rhs_commitment, product_commitment, ad)
            == ThresholdEcdsaResult::<()>::Ok(()),
{
    let q = order_of(curve);
    let lam = PEDERSEN_WEIGHT as int;
    crate::seed::lemma_rng_after_bound(seed_state, 1);
    crate::seed::lemma_rng_after_bound(seed_state, 2);
    crate::seed::lemma_rng_after_bound(seed_state, 3);
    let r1 = rng_after(seed_state, 1);
    let r2 = rng_after(seed_state, 2);
    let r3 = rng_after(seed_state, 3);
    lemma_small_mod(r1 as nat, q as nat);
    lemma_small_mod(r2 as nat, q as nat);
    lemma_small_mod(r3 as nat, q as nat);
    let c1 = fadd(q, r1, fmul(q, lam, r2));
    let c2 = fadd(q, fmul(q, lhs, r1), fmul(q, lam, r3));
    lemma_small_mod(lhs as nat, q as nat);
    lemma_mod_bound(lam * rhs_masking, q);
    lemma_mod_bound(rhs + (lam * rhs_masking) % q, q);
    lemma_small_mod((pedersen_value(q, rhs, rhs_masking)) as nat, q as nat);
    lemma_mod_bound(lam * product_masking, q);
    lemma_mod_bound(product + (lam * product_masking) % q, q);
    lemma_small_mod((pedersen_value(q, product, product_masking)) as nat, q as nat);
    let c = product_challenge(
        q,
        c1,
        c2,
        lhs,
        pedersen_value(q, rhs, rhs_masking),
        pedersen_value(q, product, product_masking),
        ad,
    );
    lemma_mod_bound(lam * r2, q);
    lemma_mod_bound(lhs * r1, q);
    lemma_mod_bound(lam * r3, q);
    lemma_mod_bound(r1 + (lam * r2) % q, q);
    lemma_mod_bound((lhs * r1) % q + (lam * r3) % q, q);
    let pf = product_proof_spec(curve, seed_state, lhs, rhs, rhs_masking, product,
        product_masking, ad);
    // Reduce the commitments and responses to single reductions.
    lemma_fmul_reduced(q, 1, lam * r2);
    lemma_mod_affine(q, r1, lam, r2);
    assert(c1 == (r1 + lam * r2) % q);
    lemma_fadd_reduced(q, lhs * r1, lam * r3);
    assert(c2 == (lhs * r1 + lam * r3) % q);
    lemma_mod_affine(q, r1, c, rhs);
    let z1 = (r1 + c * rhs) % q;
    assert(pf.response_value as int == z1);
    lemma_mod_affine(q, r2, c, rhs_masking);
    let z2 = (r2 + c * rhs_masking) % q;
    assert(pf.response_masking as int == z2);
    lemma_mod_affine(q, r3, c, product_masking);
    let z3 = (r3 + c * product_masking) % q;
    assert(pf.response_product_masking as int == z3);
    lemma_mod_bound(r1 + c * rhs, q);
    lemma_mod_bound(r2 + c * rhs_masking, q);
    lemma_mod_bound(r3 + c * product_masking, q);
    // First equation: z1 + lam * z2 == c1 + c * B mod q.
    lemma_small_mod(z1 as nat, q as nat);
    lemma_fmul_reduced(q, lam, r2 + c * rhs_masking);
    lemma_fadd_reduced(q, r1 + c * rhs, lam * (r2 + c * rhs_masking));
    let lhs1 = fadd(q, z1 % q, fmul(q, lam, z2));
    assert(lhs1 == (r1 + c * rhs + lam * (r2 + c * rhs_masking)) % q);
    let b_value = rhs_commitment.value as int;
    lemma_mod_bound(lam * rhs_masking, q);
    lemma_fmul_reduced(q, 1, lam * rhs_masking);
    lemma_mod_affine(q, rhs, lam, rhs_masking);
    assert(b_value == (rhs + lam * rhs_masking) % q);
    lemma_fmul_reduced(q, c, rhs + lam * rhs_masking);
    lemma_fadd_reduced(q, r1 + lam * r2, c * (rhs + lam * rhs_masking));
    let rhs1 = fadd(q, c1 % q, fmul(q, c, b_value));
    lemma_small_mod(((r1 + lam * r2) % q) as nat, q as nat);
    assert(rhs1 == (r1 + lam * r2 + c * (rhs + lam * rhs_masking)) % q);
    assert(r1 + c * rhs + lam * (r2 + c * rhs_masking) == r1 + lam * r2 + c * (rhs + lam
        * rhs_masking)) by (nonlinear_arith);
    assert(lhs1 == rhs1);
    // Second equation: lhs * z1 + lam * z3 == c2 + c * C mod q.
    lemma_fmul_reduced(q, lhs, r1 + c * rhs);
    lemma_fmul_reduced(q, lam, r3 + c * product_masking);
    lemma_fadd_reduced(q, lhs * (r1 + c * rhs), lam * (r3 + c * product_masking));
    let lhs2 = fadd(q, fmul(q, lhs, z1), fmul(q, lam, z3));
    assert(lhs2 == (lhs * (r1 + c * rhs) + lam * (r3 + c * product_masking)) % q);
    let c_value = product_commitment.value as int;
    lemma_mod_bound(lam * product_masking, q);
    lemma_mod_affine(q, product, lam, product_masking);
    assert(c_value == (product + lam * product_masking) % q);
    lemma_mod_bound(lhs * rhs, q);
    // Unfold the product witness inside the commitment value.
    lemma_fadd_reduced(q, lhs * rhs, lam * product_masking);
    lemma_small_mod((lam * product_masking % q) as nat, q as nat);
    lemma_fmul_reduced(q, 1, lam * product_masking);
    assert(product == (lhs * rhs) % q);
    lemma_small_mod(product as nat, q as nat);
    assert(c_value == ((lhs * rhs) % q + (lam * product_masking) % q) % q);
    assert(c_value == (lhs * rhs + lam * product_masking) % q);
    lemma_fmul_reduced(q, c, lhs * rhs + lam * product_masking);
    lemma_fadd_reduced(q, lhs * r1 + lam * r3, c * (lhs * rhs + lam * product_masking));
    let rhs2 = fadd(q, c2 % q, fmul(q, c, c_value));
    lemma_small_mod(((lhs * r1 + lam * r3) % q) as nat, q as nat);
    assert(rhs2 == (lhs * r1 + lam * r3 + c * (lhs * rhs + lam * product_masking)) % q);
    assert(lhs * (r1 + c * rhs) + lam * (r3 + c * product_masking) == lhs * r1 + lam * r3 + c
        * (lhs * rhs + lam * product_masking)) by (nonlinear_arith);
    assert(lhs2 == rhs2);
}

} // verus!
