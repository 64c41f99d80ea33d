//! Model of the curve scalar field and group elements.
//!
//! Scalars and group elements are residues below a per-curve prime order.
//! Exponentiation of the fixed generators is modelled linearly: the group
//! element `g^a h^m` is the residue `a + H_WEIGHT * m`.  This keeps every
//! homomorphic identity the protocol relies on (commitment evaluation,
//! Diffie-Hellman agreement, sigma-protocol equations) while staying in plain
//! machine arithmetic that is verified end to end.

use vstd::prelude::*;

use crate::seed::{rng_step, Rand};
use crate::NodeIndex;

verus! {

/// Names the elliptic curve to which a scalar or group element belongs.
#[derive(Clone, Copy, Debug, Hash, PartialEq, Eq, Structural)]
pub enum EccCurveType {
    K256,
    P256,
}

/// Scalar field order of the K256 model (a prime below 2^32).
pub const K256_ORDER: u64 = 4294967291;

/// Scalar field order of the P256 model (a prime below 2^32).
pub const P256_ORDER: u64 = 4294967279;

/// Weight of the second, independent generator in Pedersen-style group
/// elements: `g^a h^m` is modelled as `a + PEDERSEN_WEIGHT * m`.
pub const PEDERSEN_WEIGHT: u64 = 2654435761;

/// The order of a curve's scalar field, as a mathematical integer.
pub open spec fn order_of(curve: EccCurveType) -> int {
    match curve {
        EccCurveType::K256 => K256_ORDER as int,
        EccCurveType::P256 => P256_ORDER as int,
    }
}

/// Addition in the field of order `q`.
pub open spec fn fadd(q: int, a: int, b: int) -> int {
    (a + b) % q
}

/// Subtraction in the field of order `q`, stated over the non-negative
/// representative `a + q - b`.
pub open spec fn fsub(q: int, a: int, b: int) -> int {
    (a + q - b) % q
}

/// Multiplication in the field of order `q`.
pub open spec fn fmul(q: int, a: int, b: int) -> int {
    (a * b) % q
}

/// Value of the group element `g^a h^m` in the model.
pub open spec fn pedersen_value(q: int, a: int, m: int) -> int {
    fadd(q, a, fmul(q, PEDERSEN_WEIGHT as int, m))
}

/// The canonical evaluation abscissa of a node index: index plus one, so
/// that no share is ever an evaluation at zero (which would equal the
/// constant term).
pub open spec fn node_index_value(q: int, index: int) -> int {
    (index + 1) % q
}

/// Products of two values below 2^32 fit in a u64, with room for one more
/// 32-bit addend.
pub proof fn lemma_mul_add_fits_u64(a: int, b: int, c: int)
    requires
        0 <= a < 0x1_0000_0000,
        0 <= b < 0x1_0000_0000,
        0 <= c <= 0xFFFF_FFFF,
        a < 0xFFFF_FFFB || b < 0xFFFF_FFFB,
    ensures
        0 <= a * b,
        a * b + c <= 0xFFFF_FFFF_FFFF_FFFF,
{
    assert(0 <= a * b && a * b + c <= 0xFFFF_FFFF_FFFF_FFFF) by (nonlinear_arith)
        requires
            0 <= a < 0x1_0000_0000,
            0 <= b < 0x1_0000_0000,
            0 <= c <= 0xFFFF_FFFF,
            a < 0xFFFF_FFFB || b < 0xFFFF_FFFB,
    ;
}

impl EccCurveType {
    /// The order of the scalar field of this curve.
    pub fn order(&self) -> (r: u64)
        ensures
            r == order_of(*self),
    {
        match self {
            EccCurveType::K256 => K256_ORDER,
            EccCurveType::P256 => P256_ORDER,
        }
    }
}

/// A scalar of a curve's scalar field.
#[derive(Clone, Copy, Debug, Hash, PartialEq, Eq, Structural)]
pub struct EccScalar {
    pub curve: EccCurveType,
    pub value: u64,
}

impl EccScalar {
    /// A scalar is well-formed when its residue lies below its curve's order.
    pub open spec fn wf(self) -> bool {
        self.value < order_of(self.curve)
    }

    pub fn curve_type(&self) -> (r: EccCurveType)
        ensures
            r == self.curve,
    {
        self.curve
    }

    /// The scalar with the given residue on the given curve.
    pub fn from_u64(curve: EccCurveType, value: u64) -> (r: EccScalar)
        ensures
            r.curve == curve,
            r.value == value as int % order_of(curve),
            r.wf(),
    {
        let q = curve.order();
        EccScalar { curve, value: value % q }
    }

    /// The canonical evaluation abscissa of a node index.
    pub fn from_node_index(curve: EccCurveType, index: NodeIndex) -> (r: EccScalar)
        ensures
            r.curve == curve,
            r.value == node_index_value(order_of(curve), index as int),
            r.wf(),
    {
        let q = curve.order();
        EccScalar { curve, value: ((index as u64) + 1) % q }
    }

    /// A scalar drawn from the deterministic random stream.
    pub fn random(curve: EccCurveType, rng: &mut Rand) -> (r: EccScalar)
        requires
            old(rng).wf(),
        ensures
            r.curve == curve,
            r.value == rng_step(old(rng).state as int),
            final(rng).state == r.value,
            final(rng).wf(),
            r.wf(),
    {
        let value = rng.next_value();
        EccScalar { curve, value }
    }

    /// Field addition of two scalars of the same curve.
    pub fn add(&self, other: &EccScalar) -> (r: EccScalar)
        requires
            self.wf(),
            other.wf(),
            self.curve == other.curve,
        ensures
            r.curve == self.curve,
            r.value == fadd(order_of(self.curve), self.value as int, other.value as int),
            r.wf(),
    {
        let q = self.curve.order();
        EccScalar { curve: self.curve, value: (self.value + other.value) % q }
    }

    /// Field subtraction of two scalars of the same curve.
    pub fn sub(&self, other: &EccScalar) -> (r: EccScalar)
        requires
            self.wf(),
            other.wf(),
            self.curve == other.curve,
        ensures
            r.curve == self.curve,
            r.value == fsub(order_of(self.curve), self.value as int, other.value as int),
            r.wf(),
    {
        let q = self.curve.order();
        EccScalar { curve: self.curve, value: (self.value + q - other.value) % q }
    }

    /// Field multiplication of two scalars of the same curve.
    pub fn mul(&self, other: &EccScalar) -> (r: EccScalar)
        requires
            self.wf(),
            other.wf(),
            self.curve == other.curve,
        ensures
            r.curve == self.curve,
            r.value == fmul(order_of(self.curve), self.value as int, other.value as int),
            r.wf(),
    {
        let q = self.curve.order();
        proof {
            lemma_mul_add_fits_u64(self.value as int, other.value as int, 0);
        }
        EccScalar { curve: self.curve, value: (self.value * other.value) % q }
    }
}

/// A group element of a curve, modelled as the discrete logarithm it binds.
#[derive(Clone, Copy, Debug, Hash, PartialEq, Eq, Structural)]
pub struct EccPoint {
    pub curve: EccCurveType,
    pub value: u64,
}

impl EccPoint {
    /// A group element is well-formed when its residue lies below its
    /// curve's order.
    pub open spec fn wf(self) -> bool {
        self.value < order_of(self.curve)
    }

    pub fn curve_type(&self) -> (r: EccCurveType)
        ensures
            r == self.curve,
    {
        self.curve
    }

    /// The element `g^s`: commitment to a scalar under the first generator.
    pub fn mul_by_g(scalar: &EccScalar) -> (r: EccPoint)
        requires
            scalar.wf(),
        ensures
            r.curve == scalar.curve,
            r.value == scalar.value,
            r.wf(),
    {
        EccPoint { curve: scalar.curve, value: scalar.value }
    }

    /// The element `g^a h^m`: Pedersen-style commitment to a value and a
    /// masking scalar.
    pub fn pedersen(a: &EccScalar, m: &EccScalar) -> (r: EccPoint)
        requires
            a.wf(),
            m.wf(),
            a.curve == m.curve,
        ensures
            r.curve == a.curve,
            r.value == pedersen_value(order_of(a.curve), a.value as int, m.value as int),
            r.wf(),
    {
        let q = a.curve.order();
        proof {
            lemma_mul_add_fits_u64(PEDERSEN_WEIGHT as int, m.value as int, 0);
        }
        let hm = (PEDERSEN_WEIGHT * m.value) % q;
        EccPoint { curve: a.curve, value: (a.value + hm) % q }
    }

    /// Scalar multiplication: the element `self^s`.
    pub fn scalar_mul(&self, scalar: &EccScalar) -> (r: EccPoint)
        requires
            self.wf(),
            scalar.wf(),
            self.curve == scalar.curve,
        ensures
            r.curve == self.curve,
            r.value == fmul(order_of(self.curve), scalar.value as int, self.value as int),
            r.wf(),
    {
        let q = self.curve.order();
        proof {
            lemma_mul_add_fits_u64(scalar.value as int, self.value as int, 0);
        }
        EccPoint { curve: self.curve, value: (scalar.value * self.value) % q }
    }
}

} // verus!
