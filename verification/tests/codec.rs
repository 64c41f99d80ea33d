use idkg::curve::{EccCurveType, EccScalar};
use idkg::dealings::{IDkgDealingInternal, SecretShares};
use idkg::mega::MEGaPrivateKey;
use idkg::seed::Seed;

const CURVE: EccCurveType = EccCurveType::K256;
const AD: &[u8] = b"codec context";

fn sample_dealing(shares: &SecretShares, entropy: u64) -> IDkgDealingInternal {
    let mut rng = Seed::from_entropy(entropy).into_rng();
    let mut public_keys = Vec::new();
    for _ in 0..3 {
        public_keys.push(MEGaPrivateKey::generate(CURVE, &mut rng).public_key());
    }
    IDkgDealingInternal::new(shares, CURVE, Seed::from_entropy(entropy + 1), 2, &public_keys, 0, AD)
        .expect("construction must succeed")
}

#[test]
fn round_trip_every_variant() {
    let s = EccScalar::from_u64(CURVE, 424242);
    let m = EccScalar::from_u64(CURVE, 171717);
    let variants = vec![
        SecretShares::Random,
        SecretShares::RandomUnmasked,
        SecretShares::ReshareOfUnmasked(s),
        SecretShares::ReshareOfMasked(s, m),
        SecretShares::UnmaskedTimesMasked(s, (m, s)),
    ];
    for shares in &variants {
        let dealing = sample_dealing(shares, 100);
        let bytes = dealing.serialize().expect("serialization must succeed");
        let decoded = IDkgDealingInternal::deserialize(&bytes).expect("decoding must succeed");
        assert_eq!(decoded, dealing, "the round trip must be the identity");
    }
}

#[test]
fn flipping_any_byte_is_detected() {
    let dealing = sample_dealing(&SecretShares::RandomUnmasked, 200);
    let bytes = dealing.serialize().unwrap();
    for position in 0..bytes.len() {
        for bit in 0..8u8 {
            let mut tampered = bytes.clone();
            tampered[position] ^= 1u8 << bit;
            assert!(
                IDkgDealingInternal::deserialize(&tampered).is_err(),
                "a flipped bit at byte {position} must not decode"
            );
        }
    }
}

#[test]
fn truncated_and_padded_blobs_are_rejected() {
    let dealing = sample_dealing(&SecretShares::Random, 300);
    let bytes = dealing.serialize().unwrap();
    // Not a whole number of words.
    assert!(IDkgDealingInternal::deserialize(&bytes[..bytes.len() - 3]).is_err());
    // A whole word short.
    assert!(IDkgDealingInternal::deserialize(&bytes[..bytes.len() - 8]).is_err());
    // Trailing data.
    let mut padded = bytes.clone();
    padded.extend_from_slice(&[0u8; 8]);
    assert!(IDkgDealingInternal::deserialize(&padded).is_err());
    // Empty.
    assert!(IDkgDealingInternal::deserialize(&[]).is_err());
}

#[test]
fn decoding_is_canonical() {
    let dealing = sample_dealing(&SecretShares::Random, 400);
    let bytes = dealing.serialize().unwrap();
    let decoded = IDkgDealingInternal::deserialize(&bytes).unwrap();
    let reencoded = decoded.serialize().unwrap();
    assert_eq!(reencoded, bytes);
}
