use idkg::commitment::{PedersenCommitment, SimpleCommitment};
use idkg::curve::{EccCurveType, EccPoint, EccScalar, K256_ORDER, P256_ORDER, PEDERSEN_WEIGHT};
use idkg::poly::Polynomial;
use idkg::seed::Seed;

const CURVE: EccCurveType = EccCurveType::K256;

#[test]
fn scalar_arithmetic_is_modular() {
    assert_eq!(EccScalar::from_u64(CURVE, K256_ORDER).value, 0);
    assert_eq!(EccScalar::from_u64(EccCurveType::P256, P256_ORDER + 5).value, 5);
    let a = EccScalar::from_u64(CURVE, K256_ORDER - 1);
    let b = EccScalar::from_u64(CURVE, 3);
    assert_eq!(a.add(&b).value, 2);
    assert_eq!(b.sub(&a).value, 4);
    assert_eq!(a.mul(&b).value, K256_ORDER - 3);
    // Node index 0 is mapped to abscissa 1, never to 0.
    assert_eq!(EccScalar::from_node_index(CURVE, 0).value, 1);
    assert_eq!(EccScalar::from_node_index(CURVE, 6).value, 7);
}

#[test]
fn polynomial_evaluation_is_horner() {
    // 3 + 2 x at the abscissa of node index 1 (x = 2): 7.
    let poly = Polynomial {
        curve: CURVE,
        coefficients: vec![EccScalar::from_u64(CURVE, 3), EccScalar::from_u64(CURVE, 2)],
    };
    let x = EccScalar::from_node_index(CURVE, 1);
    assert_eq!(poly.evaluate_at(&x).value, 7);
}

#[test]
fn commitments_bind_the_coefficients() {
    let values = Polynomial {
        curve: CURVE,
        coefficients: vec![EccScalar::from_u64(CURVE, 5), EccScalar::from_u64(CURVE, 11)],
    };
    let masks = Polynomial {
        curve: CURVE,
        coefficients: vec![EccScalar::from_u64(CURVE, 7), EccScalar::from_u64(CURVE, 13)],
    };
    let simple = SimpleCommitment::create(&values, 2);
    assert_eq!(simple.points[0].value, 5);
    assert_eq!(simple.points[1].value, 11);
    // Evaluation at node index 1 (x = 2): 5 + 2 * 11 = 27.
    assert_eq!(simple.evaluate_at(1).value, 27);
    let pedersen = PedersenCommitment::create(&values, &masks, 2);
    let expected0 = (5 + PEDERSEN_WEIGHT * 7 % K256_ORDER) % K256_ORDER;
    assert_eq!(pedersen.points[0].value, expected0);
    let direct = EccPoint::pedersen(&EccScalar::from_u64(CURVE, 5), &EccScalar::from_u64(CURVE, 7));
    assert_eq!(pedersen.points[0], direct);
}

#[test]
fn seed_derivation_separates_domains() {
    let seed = Seed::from_entropy(1000);
    assert_ne!(seed.derive(1).state, seed.derive(2).state);
    assert_ne!(seed.derive(1).state, seed.state);
    // Derivation is deterministic.
    assert_eq!(seed.derive(3).state, Seed::from_entropy(1000).derive(3).state);
}
