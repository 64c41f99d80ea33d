//! Construction and verification of dealings.
//!
//! A dealing bundles the ciphertext of the encrypted shares, the public
//! commitment to the share polynomial(s) and, for the two operations that
//! change commitment type, a zero-knowledge proof.  Construction is the sole
//! production path; every node checks a dealing publicly, and the addressed
//! receiver additionally checks it privately after decrypting.

use vstd::prelude::*;

use crate::commitment::{
    commitment_eval_value, CommitmentOpening, PedersenCommitment, PolynomialCommitment,
    PolynomialCommitmentType, SimpleCommitment,
};
use crate::curve::{
    fmul, node_index_value, order_of, pedersen_value, EccCurveType, EccPoint, EccScalar,
};
use crate::mega::{
    key_curve_of, masked_value, pop_value, recipients_consistent, MEGaCiphertext,
    MEGaCiphertextPair, MEGaCiphertextSingle, MEGaCiphertextType, MEGaPrivateKey, MEGaPublicKey,
};
use crate::poly::{poly_eval_value, Polynomial};
use crate::seed::{
    rng_after, seed_derive_value, Seed, SEED_DOMAIN_DEALING_MEGA_ENCRYPT,
    SEED_DOMAIN_DEALING_POLYNOMIALS,
};
use crate::zk::{
    eq_proof_spec, product_proof_spec, ProofOfEqualOpenings, PROOF_OF_EQUAL_OPENINGS_DST,
    PROOF_OF_PRODUCT_DST,
};
use crate::{NodeIndex, ThresholdEcdsaError, ThresholdEcdsaResult,
    ThresholdEcdsaSerializationError, ThresholdEcdsaSerializationResult};

verus! {

/// The five sharing intents a dealer may be asked to realize.
#[derive(Clone, Copy, Debug, PartialEq, Eq)]
pub enum SecretShares {
    /// A fresh unmasked random value: one random polynomial.
    RandomUnmasked,
    /// A fresh masked random value: two independent random polynomials.
    Random,
    /// Re-share a known unmasked scalar under a new threshold or committee.
    ReshareOfUnmasked(EccScalar),
    /// Re-share the value component of a masked sharing, with the masking
    /// scalar as the proof witness.
    ReshareOfMasked(EccScalar, EccScalar),
    /// Share the product of an unmasked left factor and a masked right
    /// factor (value and masking).
    UnmaskedTimesMasked(EccScalar, (EccScalar, EccScalar)),
}

impl SecretShares {
    /// Every embedded scalar is in range for its own curve.
    pub open spec fn wf(self) -> bool {
        match self {
            SecretShares::RandomUnmasked => true,
            SecretShares::Random => true,
            SecretShares::ReshareOfUnmasked(secret) => secret.wf(),
            SecretShares::ReshareOfMasked(secret, masking) => secret.wf() && masking.wf(),
            SecretShares::UnmaskedTimesMasked(left, right) => left.wf() && right.0.wf()
                && right.1.wf(),
        }
    }

    /// Every embedded scalar lies on the signature curve in force.
    pub open spec fn curve_ok(self, curve: EccCurveType) -> bool {
        match self {
            SecretShares::RandomUnmasked => true,
            SecretShares::Random => true,
            SecretShares::ReshareOfUnmasked(secret) => secret.curve == curve,
            SecretShares::ReshareOfMasked(secret, masking) => secret.curve == curve
                && masking.curve == curve,
            SecretShares::UnmaskedTimesMasked(left, right) => left.curve == curve && right.0.curve
                == curve && right.1.curve == curve,
        }
    }

    /// The variant and curve tags of a share descriptor: everything its
    /// textual form may reveal.
    pub open spec fn shape(self) -> (int, Option<EccCurveType>, Option<EccCurveType>, Option<
        EccCurveType,
    >) {
        match self {
            SecretShares::Random => (0, None, None, None),
            SecretShares::RandomUnmasked => (1, None, None, None),
            SecretShares::ReshareOfUnmasked(a) => (2, Some(a.curve), None, None),
            SecretShares::ReshareOfMasked(a, b) => (3, Some(a.curve), Some(b.curve), None),
            SecretShares::UnmaskedTimesMasked(a, b) => (
                4,
                Some(a.curve),
                Some(b.0.curve),
                Some(b.1.curve),
            ),
        }
    }

    /// The redacted textual form of a descriptor: variant name and curve tag
    /// only, never the bytes of an embedded scalar.
    pub open spec fn debug_label_spec(self) -> Seq<char> {
        match self {
            SecretShares::Random => "SecretShares::Random"@,
            SecretShares::RandomUnmasked => "SecretShares::RandomUnmasked"@,
            SecretShares::ReshareOfUnmasked(a) => if a.curve == EccCurveType::K256 {
                "SecretShares::ReshareOfUnmasked(EccScalar::K256) - REDACTED"@
            } else {
                "SecretShares::ReshareOfUnmasked(EccScalar::P256) - REDACTED"@
            },
            SecretShares::ReshareOfMasked(a, b) => if a.curve == EccCurveType::K256 && b.curve
                == EccCurveType::K256 {
                "SecretShares::ReshareOfMasked(EccScalar::K256) - REDACTED"@
            } else if a.curve == EccCurveType::P256 && b.curve == EccCurveType::P256 {
                "SecretShares::ReshareOfMasked(EccScalar::P256) - REDACTED"@
            } else {
                "Unsupported curve combination in SecretShares::ReshareOfMasked!"@
            },
            SecretShares::UnmaskedTimesMasked(a, b) => if a.curve == EccCurveType::K256
                && b.0.curve == EccCurveType::K256 && b.1.curve == EccCurveType::K256 {
                "SecretShares::UnmaskedTimesMasked(EccScalar::K256) - REDACTED"@
            } else if a.curve == EccCurveType::P256 && b.0.curve == EccCurveType::P256
                && b.1.curve == EccCurveType::P256 {
                "SecretShares::UnmaskedTimesMasked(EccScalar::P256) - REDACTED"@
            } else {
                "Unsupported curve combination in SecretShares::UnmaskedTimesMasked!"@
            },
        }
    }

    /// The redacted textual form: the variant name and curve tag, with a
    /// fixed warning for unsupported curve combinations.
    pub fn debug_label(&self) -> (r: &'static str)
        ensures
            r@ == self.debug_label_spec(),
    {
        match self {
            SecretShares::Random => "SecretShares::Random",
            SecretShares::RandomUnmasked => "SecretShares::RandomUnmasked",
            SecretShares::ReshareOfUnmasked(a) => {
                if a.curve == EccCurveType::K256 {
                    "SecretShares::ReshareOfUnmasked(EccScalar::K256) - REDACTED"
                } else {
                    "SecretShares::ReshareOfUnmasked(EccScalar::P256) - REDACTED"
                }
            },
            SecretShares::ReshareOfMasked(a, b) => {
                if a.curve == EccCurveType::K256 && b.curve == EccCurveType::K256 {
                    "SecretShares::ReshareOfMasked(EccScalar::K256) - REDACTED"
                } else if a.curve == EccCurveType::P256 && b.curve == EccCurveType::P256 {
                    "SecretShares::ReshareOfMasked(EccScalar::P256) - REDACTED"
                } else {
                    "Unsupported curve combination in SecretShares::ReshareOfMasked!"
                }
            },
            SecretShares::UnmaskedTimesMasked(a, b) => {
                if a.curve == EccCurveType::K256 && b.0.curve == EccCurveType::K256 && b.1.curve
                    == EccCurveType::K256 {
                    "SecretShares::UnmaskedTimesMasked(EccScalar::K256) - REDACTED"
                } else if a.curve == EccCurveType::P256 && b.0.curve == EccCurveType::P256
                    && b.1.curve == EccCurveType::P256 {
                    "SecretShares::UnmaskedTimesMasked(EccScalar::P256) - REDACTED"
                } else {
                    "Unsupported curve combination in SecretShares::UnmaskedTimesMasked!"
                }
            },
        }
    }

    /// Rebuild a share descriptor from one or two commitment openings: a
    /// simple opening re-shares an unmasked value, a Pedersen opening
    /// re-shares a masked value, and a simple opening beside a Pedersen
    /// opening shares their product.
    pub fn try_from_openings(
        opening: &CommitmentOpening,
        second_opening: Option<&CommitmentOpening>,
    ) -> (r: ThresholdEcdsaSerializationResult<SecretShares>)
        ensures
            match (opening, second_opening) {
                (CommitmentOpening::Simple(a), None) => r == Ok::<
                    SecretShares,
                    ThresholdEcdsaSerializationError,
                >(SecretShares::ReshareOfUnmasked(*a)),
                (CommitmentOpening::Pedersen(a, b), None) => r == Ok::<
                    SecretShares,
                    ThresholdEcdsaSerializationError,
                >(SecretShares::ReshareOfMasked(*a, *b)),
                (CommitmentOpening::Simple(a), Some(CommitmentOpening::Pedersen(b, c))) => r
                    == Ok::<SecretShares, ThresholdEcdsaSerializationError>(
                    SecretShares::UnmaskedTimesMasked(*a, (*b, *c)),
                ),
                _ => r is Err,
            },
    {
        match (opening, second_opening) {
            (CommitmentOpening::Simple(a), None) => Ok(SecretShares::ReshareOfUnmasked(*a)),
            (CommitmentOpening::Pedersen(a, b), None) => Ok(
                SecretShares::ReshareOfMasked(*a, *b),
            ),
            (CommitmentOpening::Simple(a), Some(CommitmentOpening::Pedersen(b, c))) => Ok(
                SecretShares::UnmaskedTimesMasked(*a, (*b, *c)),
            ),
            _ => Err(ThresholdEcdsaSerializationError),
        }
    }
}

/// Two descriptors of the same shape (variant and curves) have the same
/// textual form: the label reveals nothing of the embedded scalars.
pub proof fn lemma_debug_label_redacts(a: SecretShares, b: SecretShares)
    requires
        a.shape() == b.shape(),
    ensures
        a.debug_label_spec() == b.debug_label_spec(),
{
}

/// The operation a transcript performs, as it bears on verifying one
/// dealing: the prior commitments each operation references.
#[derive(Clone, Debug, PartialEq, Eq)]
pub enum IDkgTranscriptOperationInternal {
    Random,
    RandomUnmasked,
    ReshareOfMasked(PolynomialCommitment),
    ReshareOfUnmasked(PolynomialCommitment),
    UnmaskedTimesMasked(PolynomialCommitment, PolynomialCommitment),
}

impl IDkgTranscriptOperationInternal {
    /// Every prior commitment referenced by the operation is well-formed.
    pub open spec fn wf(self) -> bool {
        match self {
            IDkgTranscriptOperationInternal::Random => true,
            IDkgTranscriptOperationInternal::RandomUnmasked => true,
            IDkgTranscriptOperationInternal::ReshareOfMasked(c) => c.wf(),
            IDkgTranscriptOperationInternal::ReshareOfUnmasked(c) => c.wf(),
            IDkgTranscriptOperationInternal::UnmaskedTimesMasked(l, r) => l.wf() && r.wf(),
        }
    }
}

/// A zero-knowledge proof attached to a dealing.
#[derive(Clone, Copy, Debug, PartialEq, Eq, Structural)]
pub enum ZkProof {
    ProofOfMaskedResharing(ProofOfEqualOpenings),
    ProofOfProduct(crate::zk::ProofOfProduct),
}

impl ZkProof {
    pub open spec fn wf(self) -> bool {
        match self {
            ZkProof::ProofOfMaskedResharing(p) => p.wf(),
            ZkProof::ProofOfProduct(p) => p.wf(),
        }
    }
}

/// Coefficients of a polynomial whose coefficients are all drawn from the
/// deterministic random stream starting at `state`.
pub open spec fn random_poly_values(state: int, n: nat) -> Seq<u64> {
    Seq::new(n, |i: int| rng_after(state, (i + 1) as nat) as u64)
}

/// Coefficients of a polynomial with the given constant term, the remaining
/// coefficients drawn from the stream starting at `state`.
pub open spec fn const_poly_values(constant: u64, state: int, n: nat) -> Seq<u64> {
    Seq::new(n, |i: int| if i == 0 { constant } else { rng_after(state, i as nat) as u64 })
}

/// The commitment binds exactly these coefficients under the first
/// generator.
pub open spec fn simple_commitment_matches(
    sc: SimpleCommitment,
    values: Seq<u64>,
    curve: EccCurveType,
) -> bool {
    &&& sc.curve == curve
    &&& sc.points@.len() == values.len()
    &&& forall|i: int|
        0 <= i < values.len() ==> (#[trigger] sc.points@[i]) == (EccPoint {
            curve,
            value: values[i],
        })
}

/// The commitment binds exactly these value/mask coefficient pairs under
/// both generators.
pub open spec fn pedersen_commitment_matches(
    pc: PedersenCommitment,
    values: Seq<u64>,
    masks: Seq<u64>,
    curve: EccCurveType,
) -> bool {
    &&& pc.curve == curve
    &&& pc.points@.len() == values.len()
    &&& masks.len() == values.len()
    &&& forall|i: int|
        0 <= i < values.len() ==> (#[trigger] pc.points@[i]) == (EccPoint {
            curve,
            value: pedersen_value(order_of(curve), values[i] as int, masks[i] as int) as u64,
        })
}

/// The ciphertext carries, for every receiver, the polynomial's evaluation
/// at that receiver's abscissa, masked to that receiver.
pub open spec fn single_ciphertext_matches(
    c: MEGaCiphertextSingle,
    curve: EccCurveType,
    values: Seq<u64>,
    mega_state: int,
    recipients: Seq<MEGaPublicKey>,
    dealer_index: int,
    ad: Seq<u8>,
) -> bool {
    let q_k = order_of(key_curve_of(recipients));
    let q_s = order_of(curve);
    let eph = rng_after(mega_state, 1);
    &&& c.ephemeral_key == (EccPoint { curve: key_curve_of(recipients), value: eph as u64 })
    &&& c.pop == pop_value(q_s, eph, ad, dealer_index)
    &&& c.ctexts@.len() == recipients.len()
    &&& forall|i: int|
        0 <= i < recipients.len() ==> (#[trigger] c.ctexts@[i]).curve == curve
            && c.ctexts@[i].value == masked_value(
            q_k,
            q_s,
            eph,
            recipients[i].point.value as int,
            poly_eval_value(q_s, values, node_index_value(q_s, i)),
            ad,
            dealer_index,
            i,
            0,
        )
}

/// The ciphertext carries, for every receiver, the evaluations of both
/// polynomials at that receiver's abscissa, each masked to that receiver.
pub open spec fn pair_ciphertext_matches(
    c: MEGaCiphertextPair,
    curve: EccCurveType,
    values: Seq<u64>,
    masks: Seq<u64>,
    mega_state: int,
    recipients: Seq<MEGaPublicKey>,
    dealer_index: int,
    ad: Seq<u8>,
) -> bool {
    let q_k = order_of(key_curve_of(recipients));
    let q_s = order_of(curve);
    let eph = rng_after(mega_state, 1);
    &&& c.ephemeral_key == (EccPoint { curve: key_curve_of(recipients), value: eph as u64 })
    &&& c.pop == pop_value(q_s, eph, ad, dealer_index)
    &&& c.ctexts@.len() == recipients.len()
    &&& forall|i: int|
        0 <= i < recipients.len() ==> (#[trigger] c.ctexts@[i]).0.curve == curve
            && c.ctexts@[i].1.curve == curve && c.ctexts@[i].0.value == masked_value(
            q_k,
            q_s,
            eph,
            recipients[i].point.value as int,
            poly_eval_value(q_s, values, node_index_value(q_s, i)),
            ad,
            dealer_index,
            i,
            0,
        ) && c.ctexts@[i].1.value == masked_value(
            q_k,
            q_s,
            eph,
            recipients[i].point.value as int,
            poly_eval_value(q_s, masks, node_index_value(q_s, i)),
            ad,
            dealer_index,
            i,
            1,
        )
}

/// Evaluate one polynomial at every receiver's abscissa, encrypt the
/// evaluations to the receivers, and commit to the same coefficients under
/// the first generator.
pub fn encrypt_and_commit_single_polynomial(
    poly: &Polynomial,
    num_coefficients: usize,
    recipients: &Vec<MEGaPublicKey>,
    dealer_index: NodeIndex,
    associated_data: &[u8],
    seed: Seed,
) -> (r: ThresholdEcdsaResult<(MEGaCiphertext, PolynomialCommitment)>)
    requires
        seed.wf(),
        poly.wf(),
        poly.coefficients@.len() == num_coefficients,
        num_coefficients >= 1,
        1 <= recipients@.len() < 0x1_0000_0000,
    ensures
        r is Ok <==> recipients_consistent(recipients@),
        r is Err ==> r->Err_0 == ThresholdEcdsaError::CurveMismatch,
        r is Ok ==> ({
            let (ciphertext, commitment) = r->Ok_0;
            &&& ciphertext matches MEGaCiphertext::Single(c) && single_ciphertext_matches(
                c,
                poly.curve,
                poly.values(),
                seed.state as int,
                recipients@,
                dealer_index as int,
                associated_data@,
            )
            &&& commitment matches PolynomialCommitment::Simple(sc) && simple_commitment_matches(
                sc,
                poly.values(),
                poly.curve,
            )
            &&& ciphertext.wf()
            &&& commitment.wf()
        }),
{
    let curve = poly.curve_type();
    let ghost q_s = order_of(curve);
    let n = recipients.len();
    let mut plaintexts: Vec<EccScalar> = Vec::new();
    let mut i: usize = 0;
    while i < n
        invariant
            i <= n,
            n == recipients@.len(),
            n < 0x1_0000_0000,
            poly.wf(),
            curve == poly.curve,
            q_s == order_of(curve),
            plaintexts@.len() == i,
            forall|j: int|
                0 <= j < i ==> (#[trigger] plaintexts@[j]).curve == curve
                    && plaintexts@[j].value == poly_eval_value(
                    q_s,
                    poly.values(),
                    node_index_value(q_s, j),
                ) && plaintexts@[j].wf(),
        decreases n - i,
    {
        let scalar = EccScalar::from_node_index(curve, i as NodeIndex);
        let v_s = poly.evaluate_at(&scalar);
        plaintexts.push(v_s);
        i = i + 1;
    }
    let ciphertext = match MEGaCiphertextSingle::encrypt(
        seed,
        &plaintexts,
        recipients,
        dealer_index,
        associated_data,
    ) {
        Ok(c) => c,
        Err(e) => {
            return Err(e);
        },
    };
    let commitment = SimpleCommitment::create(poly, num_coefficients);
    Ok((MEGaCiphertext::Single(ciphertext), PolynomialCommitment::Simple(commitment)))
}

/// Evaluate a value and a mask polynomial at every receiver's abscissa,
/// encrypt the evaluation pairs to the receivers, and commit to the same
/// coefficient pairs under both generators.
pub fn encrypt_and_commit_pair_of_polynomials(
    values: &Polynomial,
    mask: &Polynomial,
    num_coefficients: usize,
    recipients: &Vec<MEGaPublicKey>,
    dealer_index: NodeIndex,
    associated_data: &[u8],
    seed: Seed,
) -> (r: ThresholdEcdsaResult<(MEGaCiphertext, PolynomialCommitment)>)
    requires
        seed.wf(),
        values.wf(),
        mask.wf(),
        values.curve == mask.curve,
        values.coefficients@.len() == num_coefficients,
        mask.coefficients@.len() == num_coefficients,
        num_coefficients >= 1,
        1 <= recipients@.len() < 0x1_0000_0000,
    ensures
        r is Ok <==> recipients_consistent(recipients@),
        r is Err ==> r->Err_0 == ThresholdEcdsaError::CurveMismatch,
        r is Ok ==> ({
            let (ciphertext, commitment) = r->Ok_0;
            &&& ciphertext matches MEGaCiphertext::Pairs(c) && pair_ciphertext_matches(
                c,
                values.curve,
                values.values(),
                mask.values(),
                seed.state as int,
                recipients@,
                dealer_index as int,
                associated_data@,
            )
            &&& commitment matches PolynomialCommitment::Pedersen(pc)
                && pedersen_commitment_matches(pc, values.values(), mask.values(), values.curve)
            &&& ciphertext.wf()
            &&& commitment.wf()
        }),
{
    let curve = values.curve_type();
    let ghost q_s = order_of(curve);
    let n = recipients.len();
    let mut plaintexts: Vec<(EccScalar, EccScalar)> = Vec::new();
    let mut i: usize = 0;
    while i < n
        invariant
            i <= n,
            n == recipients@.len(),
            n < 0x1_0000_0000,
            values.wf(),
            mask.wf(),
            values.curve == mask.curve,
            curve == values.curve,
            q_s == order_of(curve),
            plaintexts@.len() == i,
            forall|j: int|
                0 <= j < i ==> (#[trigger] plaintexts@[j]).0.curve == curve
                    && plaintexts@[j].1.curve == curve && plaintexts@[j].0.value
                    == poly_eval_value(q_s, values.values(), node_index_value(q_s, j))
                    && plaintexts@[j].1.value == poly_eval_value(
                    q_s,
                    mask.values(),
                    node_index_value(q_s, j),
                ) && plaintexts@[j].0.wf() && plaintexts@[j].1.wf(),
        decreases n - i,
    {
        let scalar = EccScalar::from_node_index(curve, i as NodeIndex);
        let v_s = values.evaluate_at(&scalar);
        let m_s = mask.evaluate_at(&scalar);
        plaintexts.push((v_s, m_s));
        i = i + 1;
    }
    let ciphertext = match MEGaCiphertextPair::encrypt(
        seed,
        &plaintexts,
        recipients,
        dealer_index,
        associated_data,
    ) {
        Ok(c) => c,
        Err(e) => {
            return Err(e);
        },
    };
    let commitment = PedersenCommitment::create(values, mask, num_coefficients);
    Ok((MEGaCiphertext::Pairs(ciphertext), PolynomialCommitment::Pedersen(commitment)))
}


/// The exact content of the dealing [`IDkgDealingInternal::new`] constructs
/// for a descriptor: which polynomials are sampled from which derived seed,
/// what the commitment binds, what the ciphertext carries, and which proof
/// is attached.
pub open spec fn dealing_of(
    d: IDkgDealingInternal,
    shares: SecretShares,
    signature_curve: EccCurveType,
    seed: Seed,
    threshold: nat,
    recipients: Seq<MEGaPublicKey>,
    dealer_index: int,
    ad: Seq<u8>,
) -> bool {
    let poly_state = seed_derive_value(seed.state as int, SEED_DOMAIN_DEALING_POLYNOMIALS as int);
    let mega_state = seed_derive_value(seed.state as int, SEED_DOMAIN_DEALING_MEGA_ENCRYPT as int);
    let q_s = order_of(signature_curve);
    match shares {
        SecretShares::Random => {
            let values = random_poly_values(poly_state, threshold);
            let masks = random_poly_values(rng_after(poly_state, threshold), threshold);
            &&& d.proof is None
            &&& d.commitment matches PolynomialCommitment::Pedersen(pc)
                && pedersen_commitment_matches(pc, values, masks, signature_curve)
            &&& d.ciphertext matches MEGaCiphertext::Pairs(c) && pair_ciphertext_matches(
                c,
                signature_curve,
                values,
                masks,
                mega_state,
                recipients,
                dealer_index,
                ad,
            )
        },
        SecretShares::RandomUnmasked => {
            let values = random_poly_values(poly_state, threshold);
            &&& d.proof is None
            &&& d.commitment matches PolynomialCommitment::Simple(sc)
                && simple_commitment_matches(sc, values, signature_curve)
            &&& d.ciphertext matches MEGaCiphertext::Single(c) && single_ciphertext_matches(
                c,
                signature_curve,
                values,
                mega_state,
                recipients,
                dealer_index,
                ad,
            )
        },
        SecretShares::ReshareOfUnmasked(secret) => {
            let values = const_poly_values(secret.value, poly_state, threshold);
            &&& d.proof is None
            &&& d.commitment matches PolynomialCommitment::Simple(sc)
                && simple_commitment_matches(sc, values, signature_curve)
            &&& d.ciphertext matches MEGaCiphertext::Single(c) && single_ciphertext_matches(
                c,
                signature_curve,
                values,
                mega_state,
                recipients,
                dealer_index,
                ad,
            )
        },
        SecretShares::ReshareOfMasked(secret, masking) => {
            let values = const_poly_values(secret.value, poly_state, threshold);
            let zk_state = seed_derive_value(
                seed.state as int,
                PROOF_OF_EQUAL_OPENINGS_DST as int,
            );
            &&& d.commitment matches PolynomialCommitment::Simple(sc)
                && simple_commitment_matches(sc, values, signature_curve)
            &&& d.ciphertext matches MEGaCiphertext::Single(c) && single_ciphertext_matches(
                c,
                signature_curve,
                values,
                mega_state,
                recipients,
                dealer_index,
                ad,
            )
            &&& d.proof == Some(
                ZkProof::ProofOfMaskedResharing(
                    eq_proof_spec(
                        signature_curve,
                        zk_state,
                        secret.value as int,
                        masking.value as int,
                        ad,
                    ),
                ),
            )
        },
        SecretShares::UnmaskedTimesMasked(left, right) => {
            let product = fmul(q_s, left.value as int, right.0.value as int);
            let s1 = rng_after(poly_state, 1);
            let values = const_poly_values(product as u64, s1, threshold);
            let s2 = rng_after(s1, (threshold - 1) as nat);
            let masks = const_poly_values(s1 as u64, s2, threshold);
            let zk_state = seed_derive_value(seed.state as int, PROOF_OF_PRODUCT_DST as int);
            &&& d.commitment matches PolynomialCommitment::Pedersen(pc)
                && pedersen_commitment_matches(pc, values, masks, signature_curve)
            &&& d.ciphertext matches MEGaCiphertext::Pairs(c) && pair_ciphertext_matches(
                c,
                signature_curve,
                values,
                masks,
                mega_state,
                recipients,
                dealer_index,
                ad,
            )
            &&& d.proof == Some(
                ZkProof::ProofOfProduct(
                    product_proof_spec(
                        signature_curve,
                        zk_state,
                        left.value as int,
                        right.0.value as int,
                        right.1.value as int,
                        product,
                        s1,
                        ad,
                    ),
                ),
            )
        },
    }
}

/// A dealing: the ciphertext of the encrypted shares, the public commitment
/// and, for the operations that require one, a zero-knowledge proof.
#[derive(Clone, Debug, PartialEq, Eq)]
pub struct IDkgDealingInternal {
    pub ciphertext: MEGaCiphertext,
    pub commitment: PolynomialCommitment,
    pub proof: Option<ZkProof>,
}

impl IDkgDealingInternal {
    pub open spec fn wf(self) -> bool {
        &&& self.ciphertext.wf()
        &&& self.commitment.wf()
        &&& match self.proof {
            Some(p) => p.wf(),
            None => true,
        }
    }

    /// Construct the dealing for a share descriptor: sample the share
    /// polynomial(s) from the domain-separated polynomial seed, encrypt the
    /// evaluations under the encryption seed, commit to the coefficients,
    /// and attach the proof the descriptor calls for.
    pub fn new(
        shares: &SecretShares,
        signature_curve: EccCurveType,
        seed: Seed,
        threshold: usize,
        recipients: &Vec<MEGaPublicKey>,
        dealer_index: NodeIndex,
        associated_data: &[u8],
    ) -> (r: ThresholdEcdsaResult<IDkgDealingInternal>)
        requires
            seed.wf(),
            shares.wf(),
            recipients@.len() < 0x1_0000_0000,
        ensures
            (threshold == 0 || threshold > recipients@.len()) <==> r == Err::<
                IDkgDealingInternal,
                ThresholdEcdsaError,
            >(ThresholdEcdsaError::InvalidThreshold(threshold, recipients@.len() as usize)),
            1 <= threshold <= recipients@.len() && !shares.curve_ok(signature_curve) ==> r
                == Err::<IDkgDealingInternal, ThresholdEcdsaError>(
                ThresholdEcdsaError::InvalidSecretShare,
            ),
            1 <= threshold <= recipients@.len() && shares.curve_ok(signature_curve)
                && !recipients_consistent(recipients@) ==> r == Err::<
                IDkgDealingInternal,
                ThresholdEcdsaError,
            >(ThresholdEcdsaError::CurveMismatch),
            1 <= threshold <= recipients@.len() && shares.curve_ok(signature_curve)
                && recipients_consistent(recipients@) ==> r is Ok && r->Ok_0.wf() && dealing_of(
                r->Ok_0,
                *shares,
                signature_curve,
                seed,
                threshold as nat,
                recipients@,
                dealer_index as int,
                associated_data@,
            ),
    {
        if threshold == 0 || threshold > recipients.len() {
            return Err(ThresholdEcdsaError::InvalidThreshold(threshold, recipients.len()));
        }
        let num_coefficients = threshold;
        let poly_seed = seed.derive(SEED_DOMAIN_DEALING_POLYNOMIALS);
        let mut poly_rng = poly_seed.into_rng();
        let ghost poly_state = poly_rng.state as int;
        let mega_seed = seed.derive(SEED_DOMAIN_DEALING_MEGA_ENCRYPT);
        match shares {
            SecretShares::Random => {
                let values = Polynomial::random(signature_curve, num_coefficients, &mut poly_rng);
                let mask = Polynomial::random(signature_curve, num_coefficients, &mut poly_rng);
                proof {
                    assert(values.values() =~= random_poly_values(
                        poly_state,
                        num_coefficients as nat,
                    ));
                    assert(mask.values() =~= random_poly_values(
                        rng_after(poly_state, num_coefficients as nat),
                        num_coefficients as nat,
                    ));
                }
                let (ciphertext, commitment) = match encrypt_and_commit_pair_of_polynomials(
                    &values,
                    &mask,
                    num_coefficients,
                    recipients,
                    dealer_index,
                    associated_data,
                    mega_seed,
                ) {
                    Ok(p) => p,
                    Err(e) => {
                        return Err(e);
                    },
                };
                Ok(IDkgDealingInternal { ciphertext, commitment, proof: None })
            },
            SecretShares::RandomUnmasked => {
                let values = Polynomial::random(signature_curve, num_coefficients, &mut poly_rng);
                proof {
                    assert(values.values() =~= random_poly_values(
                        poly_state,
                        num_coefficients as nat,
                    ));
                }
                let (ciphertext, commitment) = match encrypt_and_commit_single_polynomial(
                    &values,
                    num_coefficients,
                    recipients,
                    dealer_index,
                    associated_data,
                    mega_seed,
                ) {
                    Ok(p) => p,
                    Err(e) => {
                        return Err(e);
                    },
                };
                Ok(IDkgDealingInternal { ciphertext, commitment, proof: None })
            },
            SecretShares::ReshareOfUnmasked(secret) => {
                if !(secret.curve_type() == signature_curve) {
                    return Err(ThresholdEcdsaError::InvalidSecretShare);
                }
                let values = Polynomial::random_with_constant(
                    secret,
                    num_coefficients,
                    &mut poly_rng,
                );
                proof {
                    assert(values.values() =~= const_poly_values(
                        secret.value,
                        poly_state,
                        num_coefficients as nat,
                    ));
                }
                let (ciphertext, commitment) = match encrypt_and_commit_single_polynomial(
                    &values,
                    num_coefficients,
                    recipients,
                    dealer_index,
                    associated_data,
                    mega_seed,
                ) {
                    Ok(p) => p,
                    Err(e) => {
                        return Err(e);
                    },
                };
                // The commitment is unmasked, so no proof is required.
                Ok(IDkgDealingInternal { ciphertext, commitment, proof: None })
            },
            SecretShares::ReshareOfMasked(secret, masking) => {
                if !(secret.curve_type() == signature_curve) || !(masking.curve_type()
                    == signature_curve) {
                    return Err(ThresholdEcdsaError::InvalidSecretShare);
                }
                let values = Polynomial::random_with_constant(
                    secret,
                    num_coefficients,
                    &mut poly_rng,
                );
                proof {
                    assert(values.values() =~= const_poly_values(
                        secret.value,
                        poly_state,
                        num_coefficients as nat,
                    ));
                }
                let (ciphertext, commitment) = match encrypt_and_commit_single_polynomial(
                    &values,
                    num_coefficients,
                    recipients,
                    dealer_index,
                    associated_data,
                    mega_seed,
                ) {
                    Ok(p) => p,
                    Err(e) => {
                        return Err(e);
                    },
                };
                let proof_value = crate::zk::ProofOfEqualOpenings::create(
                    seed.derive(PROOF_OF_EQUAL_OPENINGS_DST),
                    secret,
                    masking,
                    associated_data,
                );
                Ok(
                    IDkgDealingInternal {
                        ciphertext,
                        commitment,
                        proof: Some(ZkProof::ProofOfMaskedResharing(proof_value)),
                    },
                )
            },
            SecretShares::UnmaskedTimesMasked(left_value, right) => {
                if !(left_value.curve_type() == signature_curve) || !(right.0.curve_type()
                    == signature_curve) || !(right.1.curve_type() == signature_curve) {
                    return Err(ThresholdEcdsaError::InvalidSecretShare);
                }
                let product = left_value.mul(&right.0);
                let product_masking = EccScalar::random(signature_curve, &mut poly_rng);
                let ghost s1 = rng_after(poly_state, 1);
                proof {
                    assert(rng_after(poly_state, 0) == poly_state);
                    assert(s1 == crate::seed::rng_step(rng_after(poly_state, 0)));
                }
                let values = Polynomial::random_with_constant(
                    &product,
                    num_coefficients,
                    &mut poly_rng,
                );
                let ghost s2 = rng_after(s1, (num_coefficients - 1) as nat);
                let mask = Polynomial::random_with_constant(
                    &product_masking,
                    num_coefficients,
                    &mut poly_rng,
                );
                proof {
                    assert(values.values() =~= const_poly_values(
                        product.value,
                        s1,
                        num_coefficients as nat,
                    ));
                    assert(mask.values() =~= const_poly_values(
                        product_masking.value,
                        s2,
                        num_coefficients as nat,
                    ));
                }
                let (ciphertext, commitment) = match encrypt_and_commit_pair_of_polynomials(
                    &values,
                    &mask,
                    num_coefficients,
                    recipients,
                    dealer_index,
                    associated_data,
                    mega_seed,
                ) {
                    Ok(p) => p,
                    Err(e) => {
                        return Err(e);
                    },
                };
                let proof_value = crate::zk::ProofOfProduct::create(
                    seed.derive(PROOF_OF_PRODUCT_DST),
                    left_value,
                    &right.0,
                    &right.1,
                    &product,
                    &product_masking,
                    associated_data,
                );
                Ok(
                    IDkgDealingInternal {
                        ciphertext,
                        commitment,
                        proof: Some(ZkProof::ProofOfProduct(proof_value)),
                    },
                )
            },
        }
    }

    /// What [`IDkgDealingInternal::publicly_verify`] returns: the degree
    /// check, the structural ciphertext check, then the table of accepted
    /// (operation, proof) combinations, every other combination rejected.
    pub open spec fn publicly_verify_spec(
        self,
        key_curve: EccCurveType,
        signature_curve: EccCurveType,
        transcript_type: IDkgTranscriptOperationInternal,
        reconstruction_threshold: int,
        dealer_index: int,
        number_of_receivers: int,
        ad: Seq<u8>,
    ) -> ThresholdEcdsaResult<()> {
        if self.commitment.points_seq().len() != reconstruction_threshold {
            Err(ThresholdEcdsaError::InvalidCommitment)
        } else {
            let cv = self.ciphertext.check_validity_spec(number_of_receivers, ad, dealer_index);
            if cv is Err {
                cv
            } else {
                match (transcript_type, self.proof) {
                    (IDkgTranscriptOperationInternal::Random, None) => {
                        let c1 = self.commitment.verify_is_spec(
                            PolynomialCommitmentType::Pedersen,
                            signature_curve,
                        );
                        let c2 = self.ciphertext.verify_is_spec(
                            MEGaCiphertextType::Pairs,
                            key_curve,
                            signature_curve,
                        );
                        if c1 is Err {
                            c1
                        } else if c2 is Err {
                            c2
                        } else {
                            Ok(())
                        }
                    },
                    (IDkgTranscriptOperationInternal::RandomUnmasked, None) => {
                        let c1 = self.commitment.verify_is_spec(
                            PolynomialCommitmentType::Simple,
                            signature_curve,
                        );
                        let c2 = self.ciphertext.verify_is_spec(
                            MEGaCiphertextType::Single,
                            key_curve,
                            signature_curve,
                        );
                        if c1 is Err {
                            c1
                        } else if c2 is Err {
                            c2
                        } else {
                            Ok(())
                        }
                    },
                    (
                        IDkgTranscriptOperationInternal::ReshareOfMasked(previous),
                        Some(ZkProof::ProofOfMaskedResharing(p)),
                    ) => {
                        let c1 = self.commitment.verify_is_spec(
                            PolynomialCommitmentType::Simple,
                            signature_curve,
                        );
                        let c2 = previous.verify_is_spec(
                            PolynomialCommitmentType::Pedersen,
                            signature_curve,
                        );
                        let c3 = self.ciphertext.verify_is_spec(
                            MEGaCiphertextType::Single,
                            key_curve,
                            signature_curve,
                        );
                        let prev_eval = EccPoint {
                            curve: previous.spec_curve(),
                            value: commitment_eval_value(
                                order_of(previous.spec_curve()),
                                previous.points_seq(),
                                dealer_index,
                            ) as u64,
                        };
                        let pv = p.verify_spec(prev_eval, self.commitment.points_seq()[0], ad);
                        if c1 is Err {
                            c1
                        } else if c2 is Err {
                            c2
                        } else if c3 is Err {
                            c3
                        } else if pv is Err {
                            pv
                        } else {
                            Ok(())
                        }
                    },
                    (IDkgTranscriptOperationInternal::ReshareOfUnmasked(previous), None) => {
                        let c1 = self.commitment.verify_is_spec(
                            PolynomialCommitmentType::Simple,
                            signature_curve,
                        );
                        let c2 = previous.verify_is_spec(
                            PolynomialCommitmentType::Simple,
                            signature_curve,
                        );
                        let c3 = self.ciphertext.verify_is_spec(
                            MEGaCiphertextType::Single,
                            key_curve,
                            signature_curve,
                        );
                        if c1 is Err {
                            c1
                        } else if c2 is Err {
                            c2
                        } else if c3 is Err {
                            c3
                        } else {
                            match previous {
                                PolynomialCommitment::Pedersen(_) => Err(
                                    ThresholdEcdsaError::UnexpectedCommitmentType,
                                ),
                                PolynomialCommitment::Simple(prev_simple) => {
                                    let prev_eval = EccPoint {
                                        curve: prev_simple.curve,
                                        value: commitment_eval_value(
                                            order_of(prev_simple.curve),
                                            prev_simple.points@,
                                            dealer_index,
                                        ) as u64,
                                    };
                                    if prev_eval != self.commitment.points_seq()[0] {
                                        Err(ThresholdEcdsaError::InvalidCommitment)
                                    } else {
                                        Ok(())
                                    }
                                },
                            }
                        }
                    },
                    (
                        IDkgTranscriptOperationInternal::UnmaskedTimesMasked(lhs, rhs),
                        Some(ZkProof::ProofOfProduct(p)),
                    ) => {
                        let c1 = self.commitment.verify_is_spec(
                            PolynomialCommitmentType::Pedersen,
                            signature_curve,
                        );
                        let c2 = self.ciphertext.verify_is_spec(
                            MEGaCiphertextType::Pairs,
                            key_curve,
                            signature_curve,
                        );
                        let c3 = lhs.verify_is_spec(
                            PolynomialCommitmentType::Simple,
                            signature_curve,
                        );
                        let c4 = rhs.verify_is_spec(
                            PolynomialCommitmentType::Pedersen,
                            signature_curve,
                        );
                        let lhs_eval = EccPoint {
                            curve: lhs.spec_curve(),
                            value: commitment_eval_value(
                                order_of(lhs.spec_curve()),
                                lhs.points_seq(),
                                dealer_index,
                            ) as u64,
                        };
                        let rhs_eval = EccPoint {
                            curve: rhs.spec_curve(),
                            value: commitment_eval_value(
                                order_of(rhs.spec_curve()),
                                rhs.points_seq(),
                                dealer_index,
                            ) as u64,
                        };
                        let pv = p.verify_spec(
                            lhs_eval,
                            rhs_eval,
                            self.commitment.points_seq()[0],
                            ad,
                        );
                        if c1 is Err {
                            c1
                        } else if c2 is Err {
                            c2
                        } else if c3 is Err {
                            c3
                        } else if c4 is Err {
                            c4
                        } else if pv is Err {
                            pv
                        } else {
                            Ok(())
                        }
                    },
                    (_, _) => Err(ThresholdEcdsaError::InvalidProof),
                }
            }
        }
    }

    /// Public verification, without any secret key: check the commitment
    /// degree, the structural ciphertext validity, and the table of
    /// accepted (operation, proof) combinations; any combination not
    /// enumerated fails closed.
    pub fn publicly_verify(
        &self,
        key_curve: EccCurveType,
        signature_curve: EccCurveType,
        transcript_type: &IDkgTranscriptOperationInternal,
        reconstruction_threshold: u32,
        dealer_index: NodeIndex,
        number_of_receivers: u32,
        associated_data: &[u8],
    ) -> (r: ThresholdEcdsaResult<()>)
        requires
            self.wf(),
            transcript_type.wf(),
        ensures
            r == self.publicly_verify_spec(
                key_curve,
                signature_curve,
                *transcript_type,
                reconstruction_threshold as int,
                dealer_index as int,
                number_of_receivers as int,
                associated_data@,
            ),
    {
        if self.commitment.len() != reconstruction_threshold as usize {
            return Err(ThresholdEcdsaError::InvalidCommitment);
        }
        match self.ciphertext.check_validity(
            number_of_receivers as usize,
            associated_data,
            dealer_index,
        ) {
            Ok(()) => {},
            Err(e) => {
                return Err(e);
            },
        }
        match (transcript_type, self.proof.as_ref()) {
            (IDkgTranscriptOperationInternal::Random, None) => {
                match self.commitment.verify_is(
                    PolynomialCommitmentType::Pedersen,
                    signature_curve,
                ) {
                    Ok(()) => {},
                    Err(e) => {
                        return Err(e);
                    },
                }
                match self.ciphertext.verify_is(
                    MEGaCiphertextType::Pairs,
                    key_curve,
                    signature_curve,
                ) {
                    Ok(()) => {},
                    Err(e) => {
                        return Err(e);
                    },
                }
                // No proof accompanies this operation.
                Ok(())
            },
            (IDkgTranscriptOperationInternal::RandomUnmasked, None) => {
                match self.commitment.verify_is(
                    PolynomialCommitmentType::Simple,
                    signature_curve,
                ) {
                    Ok(()) => {},
                    Err(e) => {
                        return Err(e);
                    },
                }
                match self.ciphertext.verify_is(
                    MEGaCiphertextType::Single,
                    key_curve,
                    signature_curve,
                ) {
                    Ok(()) => {},
                    Err(e) => {
                        return Err(e);
                    },
                }
                // No proof accompanies this operation.
                Ok(())
            },
            (
                IDkgTranscriptOperationInternal::ReshareOfMasked(previous_commitment),
                Some(ZkProof::ProofOfMaskedResharing(proof_value)),
            ) => {
                match self.commitment.verify_is(
                    PolynomialCommitmentType::Simple,
                    signature_curve,
                ) {
                    Ok(()) => {},
                    Err(e) => {
                        return Err(e);
                    },
                }
                match previous_commitment.verify_is(
                    PolynomialCommitmentType::Pedersen,
                    signature_curve,
                ) {
                    Ok(()) => {},
                    Err(e) => {
                        return Err(e);
                    },
                }
                match self.ciphertext.verify_is(
                    MEGaCiphertextType::Single,
                    key_curve,
                    signature_curve,
                ) {
                    Ok(()) => {},
                    Err(e) => {
                        return Err(e);
                    },
                }
                let prev_eval = previous_commitment.evaluate_at(dealer_index);
                match proof_value.verify(
                    &prev_eval,
                    &self.commitment.constant_term(),
                    associated_data,
                ) {
                    Ok(()) => {},
                    Err(e) => {
                        return Err(e);
                    },
                }
                Ok(())
            },
            (IDkgTranscriptOperationInternal::ReshareOfUnmasked(previous_commitment), None) => {
                match self.commitment.verify_is(
                    PolynomialCommitmentType::Simple,
                    signature_curve,
                ) {
                    Ok(()) => {},
                    Err(e) => {
                        return Err(e);
                    },
                }
                match previous_commitment.verify_is(
                    PolynomialCommitmentType::Simple,
                    signature_curve,
                ) {
                    Ok(()) => {},
                    Err(e) => {
                        return Err(e);
                    },
                }
                match self.ciphertext.verify_is(
                    MEGaCiphertextType::Single,
                    key_curve,
                    signature_curve,
                ) {
                    Ok(()) => {},
                    Err(e) => {
                        return Err(e);
                    },
                }
                match previous_commitment {
                    PolynomialCommitment::Pedersen(_) => {
                        return Err(ThresholdEcdsaError::UnexpectedCommitmentType);
                    },
                    PolynomialCommitment::Simple(prev_simple) => {
                        let constant_term = self.commitment.constant_term();
                        let prev_eval = prev_simple.evaluate_at(dealer_index);
                        if !(prev_eval == constant_term) {
                            return Err(ThresholdEcdsaError::InvalidCommitment);
                        }
                    },
                }
                // No proof accompanies this operation.
                Ok(())
            },
            (
                IDkgTranscriptOperationInternal::UnmaskedTimesMasked(lhs, rhs),
                Some(ZkProof::ProofOfProduct(proof_value)),
            ) => {
                match self.commitment.verify_is(
                    PolynomialCommitmentType::Pedersen,
                    signature_curve,
                ) {
                    Ok(()) => {},
                    Err(e) => {
                        return Err(e);
                    },
                }
                match self.ciphertext.verify_is(
                    MEGaCiphertextType::Pairs,
                    key_curve,
                    signature_curve,
                ) {
                    Ok(()) => {},
                    Err(e) => {
                        return Err(e);
                    },
                }
                match lhs.verify_is(PolynomialCommitmentType::Simple, signature_curve) {
                    Ok(()) => {},
                    Err(e) => {
                        return Err(e);
                    },
                }
                match rhs.verify_is(PolynomialCommitmentType::Pedersen, signature_curve) {
                    Ok(()) => {},
                    Err(e) => {
                        return Err(e);
                    },
                }
                let lhs_eval = lhs.evaluate_at(dealer_index);
                let rhs_eval = rhs.evaluate_at(dealer_index);
                match proof_value.verify(
                    &lhs_eval,
                    &rhs_eval,
                    &self.commitment.constant_term(),
                    associated_data,
                ) {
                    Ok(()) => {},
                    Err(e) => {
                        return Err(e);
                    },
                }
                Ok(())
            },
            (_, _) => Err(ThresholdEcdsaError::InvalidProof),
        }
    }

    /// What [`IDkgDealingInternal::privately_verify`] returns: the key and
    /// commitment curve checks, the ciphertext shape implied by the
    /// commitment kind, and the decrypt-and-check of the receiver's share.
    pub open spec fn privately_verify_spec(
        self,
        key_curve: EccCurveType,
        signature_curve: EccCurveType,
        private_key: MEGaPrivateKey,
        public_key: MEGaPublicKey,
        ad: Seq<u8>,
        dealer_index: int,
        recipient_index: int,
    ) -> ThresholdEcdsaResult<()> {
        if private_key.secret.curve != key_curve || public_key.point.curve != key_curve {
            Err(ThresholdEcdsaError::CurveMismatch)
        } else if self.commitment.spec_curve() != signature_curve {
            Err(ThresholdEcdsaError::CurveMismatch)
        } else {
            let mega_type = match self.commitment.spec_ctype() {
                PolynomialCommitmentType::Simple => MEGaCiphertextType::Single,
                PolynomialCommitmentType::Pedersen => MEGaCiphertextType::Pairs,
            };
            let vi = self.ciphertext.verify_is_spec(mega_type, key_curve, signature_curve);
            if vi is Err {
                vi
            } else {
                let dc = self.ciphertext.decrypt_and_check_spec(
                    self.commitment,
                    ad,
                    dealer_index,
                    recipient_index,
                    private_key,
                    public_key,
                );
                if dc is Err {
                    Err(dc->Err_0)
                } else {
                    Ok(())
                }
            }
        }
    }

    /// Private verification, by the addressed receiver: check the key and
    /// commitment curves, the ciphertext shape, then decrypt the receiver's
    /// share and cross-check it against the commitment; the decrypted
    /// opening itself is discarded.
    pub fn privately_verify(
        &self,
        key_curve: EccCurveType,
        signature_curve: EccCurveType,
        private_key: &MEGaPrivateKey,
        public_key: &MEGaPublicKey,
        associated_data: &[u8],
        dealer_index: NodeIndex,
        recipient_index: NodeIndex,
    ) -> (r: ThresholdEcdsaResult<()>)
        requires
            self.wf(),
            private_key.wf(),
            public_key.wf(),
        ensures
            r == self.privately_verify_spec(
                key_curve,
                signature_curve,
                *private_key,
                *public_key,
                associated_data@,
                dealer_index as int,
                recipient_index as int,
            ),
    {
        if !(private_key.curve_type() == key_curve) || !(public_key.curve_type() == key_curve) {
            return Err(ThresholdEcdsaError::CurveMismatch);
        }
        if !(self.commitment.curve_type() == signature_curve) {
            return Err(ThresholdEcdsaError::CurveMismatch);
        }
        let mega_type = match self.commitment.ctype() {
            PolynomialCommitmentType::Simple => MEGaCiphertextType::Single,
            PolynomialCommitmentType::Pedersen => MEGaCiphertextType::Pairs,
        };
        match self.ciphertext.verify_is(mega_type, key_curve, signature_curve) {
            Ok(()) => {},
            Err(e) => {
                return Err(e);
            },
        }
        match self.ciphertext.decrypt_and_check(
            &self.commitment,
            associated_data,
            dealer_index,
            recipient_index,
            private_key,
            public_key,
        ) {
            Ok(_opening) => Ok(()),
            Err(e) => Err(e),
        }
    }
}

} // verus!
