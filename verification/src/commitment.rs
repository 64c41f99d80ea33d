//! Polynomial commitments.
//!
//! A `Simple` commitment binds each coefficient under the first generator
//! only (non-hiding); a `Pedersen` commitment binds a value/mask coefficient
//! pair under two independent generators (hiding).  Both support evaluation
//! at a receiver's abscissa, which is cross-checked in private verification
//! against the decrypted share.

use vstd::prelude::*;

use crate::curve::{
    fadd, fmul, lemma_mul_add_fits_u64, node_index_value, order_of, pedersen_value, EccCurveType,
    EccPoint, EccScalar,
};
use crate::poly::{poly_eval_value, Polynomial};
use crate::{NodeIndex, ThresholdEcdsaError, ThresholdEcdsaResult};

verus! {

/// The two algebraic kinds of polynomial commitment.
#[derive(Clone, Copy, Debug, PartialEq, Eq, Structural)]
pub enum PolynomialCommitmentType {
    Simple,
    Pedersen,
}

/// The residues of a sequence of group elements.
pub open spec fn point_values(s: Seq<EccPoint>) -> Seq<u64> {
    s.map_values(|e: EccPoint| e.value)
}

/// Well-formedness of a commitment's point vector: at least one point, all
/// of them on the commitment's curve and in range.
pub open spec fn points_wf(points: Seq<EccPoint>, curve: EccCurveType) -> bool {
    &&& points.len() >= 1
    &&& forall|i: int|
        0 <= i < points.len() ==> (#[trigger] points[i]).wf() && points[i].curve == curve
}

/// A commitment binding each coefficient under the first generator.
#[derive(Clone, Debug, PartialEq, Eq)]
pub struct SimpleCommitment {
    pub curve: EccCurveType,
    pub points: Vec<EccPoint>,
}

/// A commitment binding value/mask coefficient pairs under two generators.
#[derive(Clone, Debug, PartialEq, Eq)]
pub struct PedersenCommitment {
    pub curve: EccCurveType,
    pub points: Vec<EccPoint>,
}

/// Evaluate a commitment's point vector at the abscissa of a node index by
/// Horner's rule, in the exponent.
pub open spec fn commitment_eval_value(q: int, points: Seq<EccPoint>, index: int) -> int {
    poly_eval_value(q, point_values(points), node_index_value(q, index))
}

/// Shared Horner evaluation over a point vector.
fn eval_points_at(
    points: &Vec<EccPoint>,
    curve: EccCurveType,
    eval_point: NodeIndex,
) -> (r: EccPoint)
    requires
        forall|i: int|
            0 <= i < points@.len() ==> (#[trigger] points@[i]).wf() && points@[i].curve == curve,
    ensures
        r.curve == curve,
        r.value == commitment_eval_value(order_of(curve), points@, eval_point as int),
        r.wf(),
{
    let q = curve.order();
    let x = EccScalar::from_node_index(curve, eval_point);
    let mut accumulator: u64 = 0;
    let mut i: usize = points.len();
    while i > 0
        invariant
            i <= points@.len(),
            forall|k: int|
                0 <= k < points@.len() ==> (#[trigger] points@[k]).wf() && points@[k].curve
                    == curve,
            q == order_of(curve),
            x.wf(),
            x.curve == curve,
            accumulator as int == poly_eval_value(
                q as int,
                point_values(points@).skip(i as int),
                x.value as int,
            ),
            accumulator < q,
        decreases i,
    {
        i = i - 1;
        proof {
            lemma_mul_add_fits_u64(x.value as int, accumulator as int, q as int);
            let tail = point_values(points@).skip(i as int);
            assert(tail[0] == point_values(points@)[i as int]);
            assert(tail.skip(1) =~= point_values(points@).skip(i + 1));
            assert(point_values(points@)[i as int] == points@[i as int].value);
        }
        let c = points[i].value;
        let xa = (x.value * accumulator) % q;
        accumulator = (c + xa) % q;
    }
    proof {
        assert(point_values(points@).skip(0) =~= point_values(points@));
    }
    EccPoint { curve, value: accumulator }
}

impl SimpleCommitment {
    pub open spec fn wf(self) -> bool {
        points_wf(self.points@, self.curve)
    }

    /// Commit to each coefficient of the polynomial under the first
    /// generator.
    pub fn create(poly: &Polynomial, num_coefficients: usize) -> (r: SimpleCommitment)
        requires
            poly.wf(),
            poly.coefficients@.len() == num_coefficients,
            num_coefficients >= 1,
        ensures
            r.curve == poly.curve,
            r.points@.len() == num_coefficients,
            forall|i: int|
                0 <= i < num_coefficients ==> (#[trigger] r.points@[i]) == (EccPoint {
                    curve: poly.curve,
                    value: poly.coefficients@[i].value,
                }),
            r.wf(),
    {
        let mut points: Vec<EccPoint> = Vec::new();
        let mut i: usize = 0;
        while i < num_coefficients
            invariant
                i <= num_coefficients,
                poly.wf(),
                poly.coefficients@.len() == num_coefficients,
                points@.len() == i,
                forall|j: int|
                    0 <= j < i ==> (#[trigger] points@[j]) == (EccPoint {
                        curve: poly.curve,
                        value: poly.coefficients@[j].value,
                    }),
            decreases num_coefficients - i,
    {
            points.push(EccPoint::mul_by_g(&poly.coefficients[i]));
            i = i + 1;
        }
        SimpleCommitment { curve: poly.curve_type(), points }
    }

    /// Evaluate the commitment at the abscissa of a node index.
    pub fn evaluate_at(&self, eval_point: NodeIndex) -> (r: EccPoint)
        requires
            self.wf(),
        ensures
            r.curve == self.curve,
            r.value == commitment_eval_value(order_of(self.curve), self.points@, eval_point as int),
            r.wf(),
    {
        eval_points_at(&self.points, self.curve, eval_point)
    }
}

impl PedersenCommitment {
    pub open spec fn wf(self) -> bool {
        points_wf(self.points@, self.curve)
    }

    /// Commit to each value/mask coefficient pair under both generators.
    pub fn create(values: &Polynomial, mask: &Polynomial, num_coefficients: usize) -> (r:
        PedersenCommitment)
        requires
            values.wf(),
            mask.wf(),
            values.curve == mask.curve,
            values.coefficients@.len() == num_coefficients,
            mask.coefficients@.len() == num_coefficients,
            num_coefficients >= 1,
        ensures
            r.curve == values.curve,
            r.points@.len() == num_coefficients,
            forall|i: int|
                0 <= i < num_coefficients ==> (#[trigger] r.points@[i]) == (EccPoint {
                    curve: values.curve,
                    value: pedersen_value(
                        order_of(values.curve),
                        values.coefficients@[i].value as int,
                        mask.coefficients@[i].value as int,
                    ) as u64,
                }),
            r.wf(),
    {
        let mut points: Vec<EccPoint> = Vec::new();
        let mut i: usize = 0;
        while i < num_coefficients
            invariant
                i <= num_coefficients,
                values.wf(),
                mask.wf(),
                values.curve == mask.curve,
                values.coefficients@.len() == num_coefficients,
                mask.coefficients@.len() == num_coefficients,
                points@.len() == i,
                forall|j: int|
                    0 <= j < i ==> (#[trigger] points@[j]) == (EccPoint {
                        curve: values.curve,
                        value: pedersen_value(
                            order_of(values.curve),
                            values.coefficients@[j].value as int,
                            mask.coefficients@[j].value as int,
                        ) as u64,
                    }),
            decreases num_coefficients - i,
    {
            points.push(EccPoint::pedersen(&values.coefficients[i], &mask.coefficients[i]));
            i = i + 1;
        }
        PedersenCommitment { curve: values.curve_type(), points }
    }

    /// Evaluate the commitment at the abscissa of a node index.
    pub fn evaluate_at(&self, eval_point: NodeIndex) -> (r: EccPoint)
        requires
            self.wf(),
        ensures
            r.curve == self.curve,
            r.value == commitment_eval_value(order_of(self.curve), self.points@, eval_point as int),
            r.wf(),
    {
        eval_points_at(&self.points, self.curve, eval_point)
    }
}

/// A polynomial commitment of either algebraic kind.
#[derive(Clone, Debug, PartialEq, Eq)]
pub enum PolynomialCommitment {
    Simple(SimpleCommitment),
    Pedersen(PedersenCommitment),
}

impl PolynomialCommitment {
    pub open spec fn wf(self) -> bool {
        match self {
            PolynomialCommitment::Simple(c) => c.wf(),
            PolynomialCommitment::Pedersen(c) => c.wf(),
        }
    }

    /// The algebraic kind of this commitment.
    pub open spec fn spec_ctype(self) -> PolynomialCommitmentType {
        match self {
            PolynomialCommitment::Simple(_) => PolynomialCommitmentType::Simple,
            PolynomialCommitment::Pedersen(_) => PolynomialCommitmentType::Pedersen,
        }
    }

    pub open spec fn spec_curve(self) -> EccCurveType {
        match self {
            PolynomialCommitment::Simple(c) => c.curve,
            PolynomialCommitment::Pedersen(c) => c.curve,
        }
    }

    pub open spec fn points_seq(self) -> Seq<EccPoint> {
        match self {
            PolynomialCommitment::Simple(c) => c.points@,
            PolynomialCommitment::Pedersen(c) => c.points@,
        }
    }

    pub fn ctype(&self) -> (r: PolynomialCommitmentType)
        ensures
            r == self.spec_ctype(),
    {
        match self {
            PolynomialCommitment::Simple(_) => PolynomialCommitmentType::Simple,
            PolynomialCommitment::Pedersen(_) => PolynomialCommitmentType::Pedersen,
        }
    }

    pub fn curve_type(&self) -> (r: EccCurveType)
        ensures
            r == self.spec_curve(),
    {
        match self {
            PolynomialCommitment::Simple(c) => c.curve,
            PolynomialCommitment::Pedersen(c) => c.curve,
        }
    }

    /// The number of committed coefficients (the reconstruction threshold).
    pub fn len(&self) -> (r: usize)
        ensures
            r == self.points_seq().len(),
    {
        match self {
            PolynomialCommitment::Simple(c) => c.points.len(),
            PolynomialCommitment::Pedersen(c) => c.points.len(),
        }
    }

    /// The commitment to the constant term.
    pub fn constant_term(&self) -> (r: EccPoint)
        requires
            self.points_seq().len() >= 1,
        ensures
            r == self.points_seq()[0],
    {
        match self {
            PolynomialCommitment::Simple(c) => c.points[0],
            PolynomialCommitment::Pedersen(c) => c.points[0],
        }
    }

    /// Evaluate the commitment at the abscissa of a node index.
    pub fn evaluate_at(&self, eval_point: NodeIndex) -> (r: EccPoint)
        requires
            self.wf(),
        ensures
            r.curve == self.spec_curve(),
            r.value == commitment_eval_value(
                order_of(self.spec_curve()),
                self.points_seq(),
                eval_point as int,
            ),
            r.wf(),
    {
        match self {
            PolynomialCommitment::Simple(c) => c.evaluate_at(eval_point),
            PolynomialCommitment::Pedersen(c) => c.evaluate_at(eval_point),
        }
    }

    /// What [`PolynomialCommitment::verify_is`] returns: the expected kind,
    /// then the expected curve, each mismatch with its own error.
    pub open spec fn verify_is_spec(
        self,
        ctype: PolynomialCommitmentType,
        curve: EccCurveType,
    ) -> ThresholdEcdsaResult<()> {
        if self.spec_ctype() != ctype {
            Err(ThresholdEcdsaError::UnexpectedCommitmentType)
        } else if self.spec_curve() != curve {
            Err(ThresholdEcdsaError::CurveMismatch)
        } else {
            Ok(())
        }
    }

    /// Check that the commitment has the expected algebraic kind and curve.
    pub fn verify_is(&self, ctype: PolynomialCommitmentType, curve: EccCurveType) -> (r:
        ThresholdEcdsaResult<()>)
        ensures
            r == self.verify_is_spec(ctype, curve),
    {
        let own = self.ctype();
        if !(own == ctype) {
            return Err(ThresholdEcdsaError::UnexpectedCommitmentType);
        }
        let own_curve = self.curve_type();
        if !(own_curve == curve) {
            return Err(ThresholdEcdsaError::CurveMismatch);
        }
        Ok(())
    }
}

/// An opened share: the decrypted evaluation(s) a receiver cross-checks
/// against the commitment.
#[derive(Clone, Copy, Debug, PartialEq, Eq, Structural)]
pub enum CommitmentOpening {
    Simple(EccScalar),
    Pedersen(EccScalar, EccScalar),
}

} // verus!
