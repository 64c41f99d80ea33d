//! Verifiable secret-sharing dealings for a threshold-ECDSA distributed key
//! generation protocol.
//!
//! A dealer splits a secret (or a value derived from previously shared
//! secrets) into a polynomial of shares, encrypts one evaluation per receiver
//! under that receiver's public key, binds the shares to a public, algebraically
//! verifiable commitment, and, for the operations that change commitment type,
//! attaches a zero-knowledge proof tying the new commitment to prior ones.
//! Every node can check a dealing without decrypting it; the addressed
//! receiver can additionally check, after decrypting, that the ciphertext
//! matches the opened commitment.
//!
//! The curve scalar arithmetic, the polynomial commitments, the MEGa-style
//! encryption and the two proof systems are modelled over small prime fields
//! with plain integer values, so that every algebraic step of the protocol is
//! stated and machine-checked; the model keeps the exact shape, error taxonomy
//! and cross-check structure of the protocol.

use vstd::prelude::*;

pub mod artifact;
pub mod codec;
pub mod commitment;
pub mod curve;
pub mod dealings;
pub mod laws;
pub mod mega;
pub mod poly;
pub mod seed;
pub mod zk;

verus! {

/// Index of a node (dealer or receiver) inside a protocol instance.
pub type NodeIndex = u32;

/// Errors of dealing construction and verification.
///
/// Serialization problems are reported separately, through
/// [`ThresholdEcdsaSerializationError`]; they never indicate a cryptographic
/// failure.
#[derive(Clone, Copy, Debug, PartialEq, Eq, Structural)]
pub enum ThresholdEcdsaError {
    /// A key or scalar belongs to the wrong curve, or is out of range.
    CurveMismatch,
    /// A ciphertext fails a structural validity check.
    InvalidCiphertext,
    /// A commitment's shape, degree or value fails an expected equality.
    InvalidCommitment,
    /// The operation/proof combination is not recognized, or an attached
    /// proof fails its own verification.
    InvalidProof,
    /// A scalar embedded in a share descriptor does not match the curve in
    /// force for the operation.
    InvalidSecretShare,
    /// The threshold is zero or exceeds the receiver count; the fields carry
    /// the offending threshold and the receiver count.
    InvalidThreshold(usize, usize),
    /// A commitment is the wrong algebraic kind for the operation.
    UnexpectedCommitmentType,
}

/// Error of encoding or decoding a dealing; disjoint from the protocol
/// errors above.
#[derive(Clone, Copy, Debug, PartialEq, Eq, Structural)]
pub struct ThresholdEcdsaSerializationError;

pub type ThresholdEcdsaResult<T> = Result<T, ThresholdEcdsaError>;

pub type ThresholdEcdsaSerializationResult<T> = Result<T, ThresholdEcdsaSerializationError>;

/// An execution round number, exchanged with the sandboxed execution
/// environment.
#[derive(Clone, Copy, Debug, PartialEq, Eq, Structural)]
pub struct Round(pub u64);

} // verus!
