use idkg::commitment::{
    CommitmentOpening, PedersenCommitment, PolynomialCommitment, SimpleCommitment,
};
use idkg::curve::{EccCurveType, EccScalar, K256_ORDER};
use idkg::dealings::{IDkgDealingInternal, IDkgTranscriptOperationInternal, SecretShares, ZkProof};
use idkg::mega::{MEGaCiphertext, MEGaPrivateKey, MEGaPublicKey};
use idkg::poly::Polynomial;
use idkg::seed::Seed;
use idkg::ThresholdEcdsaError;

const CURVE: EccCurveType = EccCurveType::K256;
const AD: &[u8] = b"protocol context one";

fn keys(count: usize, entropy: u64) -> (Vec<MEGaPrivateKey>, Vec<MEGaPublicKey>) {
    let mut rng = Seed::from_entropy(entropy).into_rng();
    let mut private_keys = Vec::new();
    let mut public_keys = Vec::new();
    for _ in 0..count {
        let sk = MEGaPrivateKey::generate(CURVE, &mut rng);
        public_keys.push(sk.public_key());
        private_keys.push(sk);
    }
    (private_keys, public_keys)
}

fn scalar(value: u64) -> EccScalar {
    EccScalar::from_u64(CURVE, value)
}

/// A degree-zero polynomial, so the commitment evaluates to its constant
/// term at every abscissa.
fn constant_poly(value: u64) -> Polynomial {
    Polynomial { curve: CURVE, coefficients: vec![scalar(value)] }
}

#[test]
fn random_unmasked_end_to_end() {
    let (private_keys, public_keys) = keys(3, 7);
    let seed = Seed::from_entropy(20220208);
    let dealing = IDkgDealingInternal::new(
        &SecretShares::RandomUnmasked,
        CURVE,
        seed,
        2,
        &public_keys,
        0,
        AD,
    )
    .expect("construction must succeed");
    assert!(matches!(dealing.commitment, PolynomialCommitment::Simple(_)));
    assert!(matches!(dealing.ciphertext, MEGaCiphertext::Single(_)));
    assert!(dealing.proof.is_none());
    assert_eq!(
        dealing.publicly_verify(
            CURVE,
            CURVE,
            &IDkgTranscriptOperationInternal::RandomUnmasked,
            2,
            0,
            3,
            AD
        ),
        Ok(())
    );
    assert_eq!(
        dealing.privately_verify(CURVE, CURVE, &private_keys[1], &public_keys[1], AD, 0, 1),
        Ok(())
    );
    // Receiver index 1 checked with receiver 2's key pair: the decrypted
    // value cannot open the commitment.
    assert_eq!(
        dealing.privately_verify(CURVE, CURVE, &private_keys[2], &public_keys[2], AD, 0, 1),
        Err(ThresholdEcdsaError::InvalidCommitment)
    );
}

#[test]
fn every_variant_constructs_and_verifies() {
    let (private_keys, public_keys) = keys(4, 11);
    let secret = scalar(1234567);
    let masking = scalar(7654321);
    let left = scalar(31337);
    let right = scalar(271828);
    let right_mask = scalar(141421);
    let dealer_index = 2;
    let prev_simple = PolynomialCommitment::Simple(SimpleCommitment::create(
        &constant_poly(secret.value),
        1,
    ));
    let prev_pedersen = PolynomialCommitment::Pedersen(PedersenCommitment::create(
        &constant_poly(secret.value),
        &constant_poly(masking.value),
        1,
    ));
    let lhs = PolynomialCommitment::Simple(SimpleCommitment::create(&constant_poly(left.value), 1));
    let rhs = PolynomialCommitment::Pedersen(PedersenCommitment::create(
        &constant_poly(right.value),
        &constant_poly(right_mask.value),
        1,
    ));
    let cases: Vec<(SecretShares, IDkgTranscriptOperationInternal)> = vec![
        (SecretShares::Random, IDkgTranscriptOperationInternal::Random),
        (SecretShares::RandomUnmasked, IDkgTranscriptOperationInternal::RandomUnmasked),
        (
            SecretShares::ReshareOfUnmasked(secret),
            IDkgTranscriptOperationInternal::ReshareOfUnmasked(prev_simple),
        ),
        (
            SecretShares::ReshareOfMasked(secret, masking),
            IDkgTranscriptOperationInternal::ReshareOfMasked(prev_pedersen),
        ),
        (
            SecretShares::UnmaskedTimesMasked(left, (right, right_mask)),
            IDkgTranscriptOperationInternal::UnmaskedTimesMasked(lhs, rhs),
        ),
    ];
    for (shares, op) in cases {
        let seed = Seed::from_entropy(5150);
        let dealing = IDkgDealingInternal::new(&shares, CURVE, seed, 3, &public_keys, dealer_index, AD)
            .expect("construction must succeed");
        assert_eq!(
            dealing.publicly_verify(CURVE, CURVE, &op, 3, dealer_index, 4, AD),
            Ok(()),
            "public verification must accept the matching operation"
        );
        for receiver in 0..4u32 {
            assert_eq!(
                dealing.privately_verify(
                    CURVE,
                    CURVE,
                    &private_keys[receiver as usize],
                    &public_keys[receiver as usize],
                    AD,
                    dealer_index,
                    receiver
                ),
                Ok(()),
                "private verification must accept every honest receiver"
            );
        }
    }
}

#[test]
fn invalid_threshold_for_every_variant() {
    let (_, public_keys) = keys(3, 13);
    let s = scalar(5);
    let variants = vec![
        SecretShares::Random,
        SecretShares::RandomUnmasked,
        SecretShares::ReshareOfUnmasked(s),
        SecretShares::ReshareOfMasked(s, s),
        SecretShares::UnmaskedTimesMasked(s, (s, s)),
    ];
    for shares in &variants {
        let seed = Seed::from_entropy(1);
        assert_eq!(
            IDkgDealingInternal::new(shares, CURVE, seed, 0, &public_keys, 0, AD),
            Err(ThresholdEcdsaError::InvalidThreshold(0, 3))
        );
        assert_eq!(
            IDkgDealingInternal::new(shares, CURVE, seed, 4, &public_keys, 0, AD),
            Err(ThresholdEcdsaError::InvalidThreshold(4, 3))
        );
    }
}

#[test]
fn wrong_curve_secret_is_rejected() {
    let (_, public_keys) = keys(3, 17);
    let wrong = EccScalar::from_u64(EccCurveType::P256, 42);
    let seed = Seed::from_entropy(2);
    assert_eq!(
        IDkgDealingInternal::new(
            &SecretShares::ReshareOfUnmasked(wrong),
            CURVE,
            seed,
            2,
            &public_keys,
            0,
            AD
        ),
        Err(ThresholdEcdsaError::InvalidSecretShare)
    );
    assert_eq!(
        IDkgDealingInternal::new(
            &SecretShares::ReshareOfMasked(scalar(1), wrong),
            CURVE,
            seed,
            2,
            &public_keys,
            0,
            AD
        ),
        Err(ThresholdEcdsaError::InvalidSecretShare)
    );
    assert_eq!(
        IDkgDealingInternal::new(
            &SecretShares::UnmaskedTimesMasked(scalar(1), (wrong, scalar(2))),
            CURVE,
            seed,
            2,
            &public_keys,
            0,
            AD
        ),
        Err(ThresholdEcdsaError::InvalidSecretShare)
    );
}

#[test]
fn mixed_curve_recipients_are_rejected() {
    let (_, mut public_keys) = keys(2, 19);
    let mut other_rng = Seed::from_entropy(23).into_rng();
    let other = MEGaPrivateKey::generate(EccCurveType::P256, &mut other_rng);
    public_keys.push(other.public_key());
    let seed = Seed::from_entropy(3);
    assert_eq!(
        IDkgDealingInternal::new(&SecretShares::Random, CURVE, seed, 2, &public_keys, 0, AD),
        Err(ThresholdEcdsaError::CurveMismatch)
    );
}

#[test]
fn cross_operation_rejection() {
    let (_, public_keys) = keys(3, 29);
    let seed = Seed::from_entropy(4);
    let dealing = IDkgDealingInternal::new(
        &SecretShares::RandomUnmasked,
        CURVE,
        seed,
        2,
        &public_keys,
        1,
        AD,
    )
    .unwrap();
    let prev_simple = PolynomialCommitment::Simple(SimpleCommitment::create(&constant_poly(9), 1));
    let prev_pedersen = PolynomialCommitment::Pedersen(PedersenCommitment::create(
        &constant_poly(9),
        &constant_poly(8),
        1,
    ));
    assert_eq!(
        dealing.publicly_verify(CURVE, CURVE, &IDkgTranscriptOperationInternal::Random, 2, 1, 3, AD),
        Err(ThresholdEcdsaError::UnexpectedCommitmentType)
    );
    assert_eq!(
        dealing.publicly_verify(
            CURVE,
            CURVE,
            &IDkgTranscriptOperationInternal::ReshareOfMasked(prev_pedersen.clone()),
            2,
            1,
            3,
            AD
        ),
        Err(ThresholdEcdsaError::InvalidProof)
    );
    assert_eq!(
        dealing.publicly_verify(
            CURVE,
            CURVE,
            &IDkgTranscriptOperationInternal::UnmaskedTimesMasked(
                prev_simple.clone(),
                prev_pedersen.clone()
            ),
            2,
            1,
            3,
            AD
        ),
        Err(ThresholdEcdsaError::InvalidProof)
    );
    // The unmasked resharing check compares the prior commitment's
    // evaluation with the dealing's own random constant term.
    assert_eq!(
        dealing.publicly_verify(
            CURVE,
            CURVE,
            &IDkgTranscriptOperationInternal::ReshareOfUnmasked(prev_simple),
            2,
            1,
            3,
            AD
        ),
        Err(ThresholdEcdsaError::InvalidCommitment)
    );
    assert_eq!(
        dealing.publicly_verify(
            CURVE,
            CURVE,
            &IDkgTranscriptOperationInternal::ReshareOfUnmasked(prev_pedersen),
            2,
            1,
            3,
            AD
        ),
        Err(ThresholdEcdsaError::UnexpectedCommitmentType)
    );
}

#[test]
fn reshare_of_unmasked_consistency() {
    let (_, public_keys) = keys(3, 31);
    let secret = scalar(987654321);
    let seed = Seed::from_entropy(6);
    let dealing = IDkgDealingInternal::new(
        &SecretShares::ReshareOfUnmasked(secret),
        CURVE,
        seed,
        2,
        &public_keys,
        1,
        AD,
    )
    .unwrap();
    let matching =
        PolynomialCommitment::Simple(SimpleCommitment::create(&constant_poly(secret.value), 1));
    assert_eq!(
        dealing.publicly_verify(
            CURVE,
            CURVE,
            &IDkgTranscriptOperationInternal::ReshareOfUnmasked(matching),
            2,
            1,
            3,
            AD
        ),
        Ok(())
    );
    // Re-sharing a different secret breaks the evaluation equality.
    let other =
        PolynomialCommitment::Simple(SimpleCommitment::create(&constant_poly(secret.value + 1), 1));
    assert_eq!(
        dealing.publicly_verify(
            CURVE,
            CURVE,
            &IDkgTranscriptOperationInternal::ReshareOfUnmasked(other),
            2,
            1,
            3,
            AD
        ),
        Err(ThresholdEcdsaError::InvalidCommitment)
    );
}

#[test]
fn private_verification_rejects_wrong_curve_keys() {
    let (private_keys, public_keys) = keys(3, 37);
    let seed = Seed::from_entropy(8);
    let dealing =
        IDkgDealingInternal::new(&SecretShares::Random, CURVE, seed, 2, &public_keys, 0, AD)
            .unwrap();
    assert_eq!(
        dealing.privately_verify(
            EccCurveType::P256,
            CURVE,
            &private_keys[0],
            &public_keys[0],
            AD,
            0,
            0
        ),
        Err(ThresholdEcdsaError::CurveMismatch)
    );
}

#[test]
fn verification_is_bound_to_context_and_dealer() {
    let (_, public_keys) = keys(3, 41);
    let seed = Seed::from_entropy(9);
    let dealing = IDkgDealingInternal::new(
        &SecretShares::RandomUnmasked,
        CURVE,
        seed,
        2,
        &public_keys,
        1,
        AD,
    )
    .unwrap();
    let op = IDkgTranscriptOperationInternal::RandomUnmasked;
    // Different associated data: the binding tag no longer matches.
    assert_eq!(
        dealing.publicly_verify(CURVE, CURVE, &op, 2, 1, 3, b"another context"),
        Err(ThresholdEcdsaError::InvalidCiphertext)
    );
    // Different dealer index: the binding tag no longer matches.
    assert_eq!(
        dealing.publicly_verify(CURVE, CURVE, &op, 2, 2, 3, AD),
        Err(ThresholdEcdsaError::InvalidCiphertext)
    );
    // Wrong receiver count.
    assert_eq!(
        dealing.publicly_verify(CURVE, CURVE, &op, 2, 1, 4, AD),
        Err(ThresholdEcdsaError::InvalidCiphertext)
    );
    // Wrong reconstruction threshold.
    assert_eq!(
        dealing.publicly_verify(CURVE, CURVE, &op, 3, 1, 3, AD),
        Err(ThresholdEcdsaError::InvalidCommitment)
    );
}

#[test]
fn tampered_proof_is_rejected() {
    let (_, public_keys) = keys(3, 43);
    let secret = scalar(5551212);
    let masking = scalar(8675309);
    let prev = PolynomialCommitment::Pedersen(PedersenCommitment::create(
        &constant_poly(secret.value),
        &constant_poly(masking.value),
        1,
    ));
    let mut good = IDkgDealingInternal::new(
        &SecretShares::ReshareOfMasked(secret, masking),
        CURVE,
        Seed::from_entropy(10),
        2,
        &public_keys,
        0,
        AD,
    )
    .unwrap();
    let op = IDkgTranscriptOperationInternal::ReshareOfMasked(prev);
    assert_eq!(good.publicly_verify(CURVE, CURVE, &op, 2, 0, 3, AD), Ok(()));
    match &mut good.proof {
        Some(ZkProof::ProofOfMaskedResharing(p)) => {
            p.response = (p.response + 1) % K256_ORDER;
        }
        _ => panic!("expected a resharing proof"),
    }
    assert_eq!(
        good.publicly_verify(CURVE, CURVE, &op, 2, 0, 3, AD),
        Err(ThresholdEcdsaError::InvalidProof)
    );
}

#[test]
fn construction_is_deterministic_in_the_seed() {
    let (_, public_keys) = keys(3, 47);
    let a = IDkgDealingInternal::new(
        &SecretShares::Random,
        CURVE,
        Seed::from_entropy(77),
        2,
        &public_keys,
        0,
        AD,
    )
    .unwrap();
    let b = IDkgDealingInternal::new(
        &SecretShares::Random,
        CURVE,
        Seed::from_entropy(77),
        2,
        &public_keys,
        0,
        AD,
    )
    .unwrap();
    let c = IDkgDealingInternal::new(
        &SecretShares::Random,
        CURVE,
        Seed::from_entropy(78),
        2,
        &public_keys,
        0,
        AD,
    )
    .unwrap();
    assert_eq!(a, b);
    assert_ne!(a, c);
}

#[test]
fn descriptor_labels_are_redacted() {
    let s1 = scalar(1);
    let s2 = scalar(0xDEADBEEF);
    assert_eq!(SecretShares::Random.debug_label(), "SecretShares::Random");
    assert_eq!(SecretShares::RandomUnmasked.debug_label(), "SecretShares::RandomUnmasked");
    assert_eq!(
        SecretShares::ReshareOfUnmasked(s1).debug_label(),
        "SecretShares::ReshareOfUnmasked(EccScalar::K256) - REDACTED"
    );
    // The label depends only on the variant and curve, never on the scalar.
    assert_eq!(
        SecretShares::ReshareOfUnmasked(s1).debug_label(),
        SecretShares::ReshareOfUnmasked(s2).debug_label()
    );
    let p = EccScalar::from_u64(EccCurveType::P256, 3);
    assert_eq!(
        SecretShares::ReshareOfMasked(p, p).debug_label(),
        "SecretShares::ReshareOfMasked(EccScalar::P256) - REDACTED"
    );
    assert_eq!(
        SecretShares::ReshareOfMasked(s1, p).debug_label(),
        "Unsupported curve combination in SecretShares::ReshareOfMasked!"
    );
    assert_eq!(
        SecretShares::UnmaskedTimesMasked(s1, (s1, s2)).debug_label(),
        "SecretShares::UnmaskedTimesMasked(EccScalar::K256) - REDACTED"
    );
    assert_eq!(
        SecretShares::UnmaskedTimesMasked(s1, (p, s2)).debug_label(),
        "Unsupported curve combination in SecretShares::UnmaskedTimesMasked!"
    );
    assert!(!SecretShares::ReshareOfUnmasked(s2).debug_label().contains("DEADBEEF"));
    assert!(!SecretShares::ReshareOfUnmasked(s2).debug_label().contains("3735928559"));
}

#[test]
fn secret_shares_from_openings() {
    let a = scalar(10);
    let b = scalar(20);
    let c = scalar(30);
    assert_eq!(
        SecretShares::try_from_openings(&CommitmentOpening::Simple(a), None),
        Ok(SecretShares::ReshareOfUnmasked(a))
    );
    assert_eq!(
        SecretShares::try_from_openings(&CommitmentOpening::Pedersen(a, b), None),
        Ok(SecretShares::ReshareOfMasked(a, b))
    );
    assert_eq!(
        SecretShares::try_from_openings(
            &CommitmentOpening::Simple(a),
            Some(&CommitmentOpening::Pedersen(b, c))
        ),
        Ok(SecretShares::UnmaskedTimesMasked(a, (b, c)))
    );
    assert!(SecretShares::try_from_openings(
        &CommitmentOpening::Pedersen(a, b),
        Some(&CommitmentOpening::Simple(c))
    )
    .is_err());
}
