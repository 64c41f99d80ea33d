//! The protocol's laws: a dealing constructed for a descriptor passes public
//! verification under the matching operation and private verification for
//! every honest receiver; mismatched operations, inconsistent resharings and
//! wrong receiver keys are rejected.

use vstd::prelude::*;
use vstd::arithmetic::div_mod::{
    lemma_add_mod_noop, lemma_add_mod_noop_right, lemma_mod_add_multiples_vanish,
    lemma_mul_mod_noop_right, lemma_small_mod,
};

use crate::commitment::{commitment_eval_value, point_values, PolynomialCommitment};
use crate::curve::{fadd, fmul, fsub, order_of, pedersen_value, EccCurveType, EccPoint,
    PEDERSEN_WEIGHT};
use crate::dealings::{
    const_poly_values, dealing_of, pair_ciphertext_matches, pedersen_commitment_matches,
    random_poly_values, simple_commitment_matches, single_ciphertext_matches,
    IDkgDealingInternal, IDkgTranscriptOperationInternal, SecretShares,
};
use crate::mega::{
    key_curve_of, mega_mask, recipients_consistent, MEGaCiphertext, MEGaCiphertextPair,
    MEGaCiphertextSingle, MEGaPrivateKey, MEGaPublicKey,
};
use crate::poly::poly_eval_value;
use crate::seed::{rng_after, seed_derive_value, Seed, RNG_MODULUS};
use crate::zk::{lemma_eq_proof_completeness, lemma_product_proof_completeness};
use crate::{ThresholdEcdsaError, ThresholdEcdsaResult};

verus! {

/// A polynomial evaluation is a reduced residue.
pub proof fn lemma_poly_eval_bound(q: int, coefficients: Seq<u64>, x: int)
    requires
        q >= 2,
    ensures
        0 <= poly_eval_value(q, coefficients, x) < q,
{
    if coefficients.len() == 0 {
    }
}

/// Adding a mask and stripping it again returns the plaintext.
pub proof fn lemma_unmask(q: int, plaintext: int, mask: int)
    requires
        q >= 2,
        0 <= plaintext < q,
        0 <= mask < q,
    ensures
        fsub(q, fadd(q, plaintext, mask), mask) == plaintext,
{
    lemma_add_mod_noop_right(q - mask, plaintext + mask, q);
    assert(((plaintext + mask) % q + (q - mask)) % q == (q - mask + (plaintext + mask)) % q);
    assert(q - mask + (plaintext + mask) == q + plaintext);
    lemma_mod_add_multiples_vanish(plaintext, q);
    lemma_small_mod(plaintext as nat, q as nat);
}

/// Stripping a different mask never returns the plaintext.
pub proof fn lemma_unmask_wrong(q: int, plaintext: int, mask: int, other: int)
    requires
        q >= 2,
        0 <= plaintext < q,
        0 <= mask < q,
        0 <= other < q,
        mask != other,
    ensures
        fsub(q, fadd(q, plaintext, mask), other) != plaintext,
{
    lemma_add_mod_noop_right(q - other, plaintext + mask, q);
    assert(((plaintext + mask) % q + (q - other)) % q == (q - other + (plaintext + mask)) % q);
    let d = plaintext + mask - other;
    assert(q - other + (plaintext + mask) == d + q);
    lemma_mod_add_multiples_vanish(d, q);
    assert(fsub(q, fadd(q, plaintext, mask), other) == d % q);
    if 0 <= d < q {
        lemma_small_mod(d as nat, q as nat);
        assert(d % q != plaintext);
    } else if d >= q {
        lemma_mod_add_multiples_vanish(d - q, q);
        lemma_small_mod((d - q) as nat, q as nat);
        assert(d % q == d - q);
        assert(d - q != plaintext);
    } else {
        lemma_mod_add_multiples_vanish(d, q);
        lemma_small_mod((d + q) as nat, q as nat);
        assert(d % q == d + q);
        assert(d + q != plaintext);
    }
}

/// Evaluating a vector of Pedersen-style points equals the Pedersen
/// combination of evaluating the value and mask coefficients separately:
/// the homomorphic identity behind the receiver's cross-check.
pub proof fn lemma_pedersen_eval(q: int, values: Seq<u64>, masks: Seq<u64>, points: Seq<u64>, x: int)
    requires
        q >= 2,
        values.len() == masks.len(),
        points.len() == values.len(),
        forall|i: int|
            0 <= i < points.len() ==> points[i] == pedersen_value(
                q,
                values[i] as int,
                masks[i] as int,
            ),
    ensures
        poly_eval_value(q, points, x) == pedersen_value(
            q,
            poly_eval_value(q, values, x),
            poly_eval_value(q, masks, x),
        ),
    decreases values.len(),
{
    let lam = PEDERSEN_WEIGHT as int;
    if values.len() == 0 {
        assert(poly_eval_value(q, points, x) == 0);
        assert(lam * 0 == 0) by (nonlinear_arith);
        lemma_small_mod(0nat, q as nat);
        assert((0 + (lam * 0) % q) % q == 0);
    } else {
        let vt = values.skip(1);
        let mt = masks.skip(1);
        let pt = points.skip(1);
        assert(forall|i: int|
            0 <= i < pt.len() ==> pt[i] == pedersen_value(q, vt[i] as int, mt[i] as int));
        lemma_pedersen_eval(q, vt, mt, pt, x);
        let ea = poly_eval_value(q, vt, x);
        let em = poly_eval_value(q, mt, x);
        let ep = poly_eval_value(q, pt, x);
        lemma_poly_eval_bound(q, vt, x);
        lemma_poly_eval_bound(q, mt, x);
        let a0 = values[0] as int;
        let m0 = masks[0] as int;
        // Reduce the head point and the tail evaluation on the left side.
        assert(poly_eval_value(q, points, x) == (points[0] + (x * ep) % q) % q);
        assert(ep == (ea + (lam * em) % q) % q);
        lemma_mul_mod_noop_right(x, ea + (lam * em) % q, q);
        assert((x * ep) % q == (x * (ea + (lam * em) % q)) % q);
        assert(x * (ea + (lam * em) % q) == x * ea + x * ((lam * em) % q)) by (nonlinear_arith);
        lemma_add_mod_noop(x * ea, x * ((lam * em) % q), q);
        lemma_mul_mod_noop_right(x, lam * em, q);
        lemma_add_mod_noop(x * ea, x * (lam * em), q);
        assert((x * ep) % q == (x * ea + x * (lam * em)) % q);
        assert(points[0] == (a0 + (lam * m0) % q) % q);
        lemma_add_mod_noop_right(points[0] as int, x * ea + x * (lam * em), q);
        assert(poly_eval_value(q, points, x) == (points[0] + (x * ea + x * (lam * em)) % q) % q);
        lemma_add_mod_noop(a0 + (lam * m0) % q, x * ea + x * (lam * em), q);
        lemma_small_mod((((a0 + (lam * m0) % q) % q) as nat), q as nat);
        assert(poly_eval_value(q, points, x) == (a0 + (lam * m0) % q + x * ea + x * (lam * em))
            % q);
        lemma_add_mod_noop_right(a0 + x * ea + x * (lam * em), lam * m0, q);
        assert(a0 + (lam * m0) % q + x * ea + x * (lam * em) == a0 + x * ea + x * (lam * em) + (lam
            * m0) % q);
        assert(poly_eval_value(q, points, x) == (a0 + x * ea + x * (lam * em) + lam * m0) % q);
        // Reduce the right side to the same polynomial.
        let av = poly_eval_value(q, values, x);
        let mv = poly_eval_value(q, masks, x);
        assert(av == (a0 + (x * ea) % q) % q);
        lemma_add_mod_noop_right(a0, x * ea, q);
        assert(av == (a0 + x * ea) % q);
        assert(mv == (m0 + (x * em) % q) % q);
        lemma_add_mod_noop_right(m0, x * em, q);
        assert(mv == (m0 + x * em) % q);
        lemma_mul_mod_noop_right(lam, m0 + x * em, q);
        assert((lam * mv) % q == (lam * (m0 + x * em)) % q);
        lemma_add_mod_noop(a0 + x * ea, lam * (m0 + x * em), q);
        lemma_small_mod(av as nat, q as nat);
        assert(pedersen_value(q, av, mv) == (av + (lam * mv) % q) % q);
        assert((av + (lam * mv) % q) % q == ((a0 + x * ea) % q + (lam * (m0 + x * em)) % q) % q);
        assert(pedersen_value(q, av, mv) == (a0 + x * ea + lam * (m0 + x * em)) % q);
        assert(a0 + x * ea + lam * (m0 + x * em) == a0 + x * ea + x * (lam * em) + lam * m0)
            by (nonlinear_arith);
    }
}

/// The operation references prior commitments consistent with the share
/// descriptor: each referenced commitment opens, at the dealer's abscissa,
/// to the scalars the descriptor embeds.
pub open spec fn op_matches(
    shares: SecretShares,
    op: IDkgTranscriptOperationInternal,
    curve: EccCurveType,
    dealer_index: int,
) -> bool {
    let q = order_of(curve);
    match (shares, op) {
        (SecretShares::Random, IDkgTranscriptOperationInternal::Random) => true,
        (SecretShares::RandomUnmasked, IDkgTranscriptOperationInternal::RandomUnmasked) => true,
        (
            SecretShares::ReshareOfUnmasked(secret),
            IDkgTranscriptOperationInternal::ReshareOfUnmasked(previous),
        ) => {
            &&& previous.wf()
            &&& previous is Simple
            &&& previous.spec_curve() == curve
            &&& commitment_eval_value(q, previous.points_seq(), dealer_index) == secret.value
        },
        (
            SecretShares::ReshareOfMasked(secret, masking),
            IDkgTranscriptOperationInternal::ReshareOfMasked(previous),
        ) => {
            &&& previous.wf()
            &&& previous is Pedersen
            &&& previous.spec_curve() == curve
            &&& commitment_eval_value(q, previous.points_seq(), dealer_index) == pedersen_value(
                q,
                secret.value as int,
                masking.value as int,
            )
        },
        (
            SecretShares::UnmaskedTimesMasked(left, right),
            IDkgTranscriptOperationInternal::UnmaskedTimesMasked(lhs, rhs),
        ) => {
            &&& lhs.wf()
            &&& lhs is Simple
            &&& lhs.spec_curve() == curve
            &&& commitment_eval_value(q, lhs.points_seq(), dealer_index) == left.value
            &&& rhs.wf()
            &&& rhs is Pedersen
            &&& rhs.spec_curve() == curve
            &&& commitment_eval_value(q, rhs.points_seq(), dealer_index) == pedersen_value(
                q,
                right.0.value as int,
                right.1.value as int,
            )
        },
        (_, _) => false,
    }
}

/// A dealing constructed for a share descriptor passes public verification
/// under the matching operation, with the threshold and receiver count it
/// was constructed for.
pub proof fn lemma_construct_then_verify_public(
    d: IDkgDealingInternal,
    shares: SecretShares,
    signature_curve: EccCurveType,
    key_curve: EccCurveType,
    seed: Seed,
    threshold: nat,
    recipients: Seq<MEGaPublicKey>,
    dealer_index: int,
    ad: Seq<u8>,
    op: IDkgTranscriptOperationInternal,
)
    requires
        seed.wf(),
        shares.wf(),
        shares.curve_ok(signature_curve),
        recipients_consistent(recipients),
        1 <= threshold <= recipients.len(),
        key_curve == key_curve_of(recipients),
        dealing_of(d, shares, signature_curve, seed, threshold, recipients, dealer_index, ad),
        op_matches(shares, op, signature_curve, dealer_index),
        0 <= dealer_index,
    ensures
        d.publicly_verify_spec(
            key_curve,
            signature_curve,
            op,
            threshold as int,
            dealer_index,
            recipients.len() as int,
            ad,
        ) == ThresholdEcdsaResult::<()>::Ok(()),
{
    let q = order_of(signature_curve);
    let poly_state = seed_derive_value(seed.state as int, crate::seed::SEED_DOMAIN_DEALING_POLYNOMIALS as int);
    let mega_state = seed_derive_value(seed.state as int, crate::seed::SEED_DOMAIN_DEALING_MEGA_ENCRYPT as int);
    crate::seed::lemma_rng_after_bound(mega_state, 1);
    match shares {
        SecretShares::Random => {},
        SecretShares::RandomUnmasked => {},
        SecretShares::ReshareOfUnmasked(secret) => {
            let values = const_poly_values(secret.value, poly_state, threshold);
            assert(values[0] == secret.value);
        },
        SecretShares::ReshareOfMasked(secret, masking) => {
            let values = const_poly_values(secret.value, poly_state, threshold);
            assert(values[0] == secret.value);
            let zk_state = seed_derive_value(
                seed.state as int,
                crate::zk::PROOF_OF_EQUAL_OPENINGS_DST as int,
            );
            let previous = op->ReshareOfMasked_0;
            let prev_eval = EccPoint {
                curve: previous.spec_curve(),
                value: commitment_eval_value(q, previous.points_seq(), dealer_index) as u64,
            };
            lemma_poly_eval_bound(q, point_values(previous.points_seq()), crate::curve::node_index_value(q, dealer_index));
            let constant = d.commitment.points_seq()[0];
            assert(constant == (EccPoint { curve: signature_curve, value: secret.value }));
            lemma_eq_proof_completeness(
                signature_curve,
                zk_state,
                secret.value as int,
                masking.value as int,
                prev_eval,
                constant,
                ad,
            );
        },
        SecretShares::UnmaskedTimesMasked(left, right) => {
            let product = fmul(q, left.value as int, right.0.value as int);
            let s1 = rng_after(poly_state, 1);
            crate::seed::lemma_rng_after_bound(poly_state, 1);
            let values = const_poly_values(product as u64, s1, threshold);
            let s2 = rng_after(s1, (threshold - 1) as nat);
            let masks = const_poly_values(s1 as u64, s2, threshold);
            assert(values[0] == product as u64);
            assert(masks[0] == s1 as u64);
            let zk_state = seed_derive_value(
                seed.state as int,
                crate::zk::PROOF_OF_PRODUCT_DST as int,
            );
            let lhs = op->UnmaskedTimesMasked_0;
            let rhs = op->UnmaskedTimesMasked_1;
            let lhs_eval = EccPoint {
                curve: lhs.spec_curve(),
                value: commitment_eval_value(q, lhs.points_seq(), dealer_index) as u64,
            };
            let rhs_eval = EccPoint {
                curve: rhs.spec_curve(),
                value: commitment_eval_value(q, rhs.points_seq(), dealer_index) as u64,
            };
            lemma_poly_eval_bound(q, point_values(lhs.points_seq()), crate::curve::node_index_value(q, dealer_index));
            lemma_poly_eval_bound(q, point_values(rhs.points_seq()), crate::curve::node_index_value(q, dealer_index));
            let constant = d.commitment.points_seq()[0];
            assert(constant == (EccPoint {
                curve: signature_curve,
                value: pedersen_value(q, product, s1) as u64,
            }));
            lemma_product_proof_completeness(
                signature_curve,
                zk_state,
                left.value as int,
                right.0.value as int,
                right.1.value as int,
                product,
                s1,
                lhs_eval,
                rhs_eval,
                constant,
                ad,
            );
        },
    }
}


/// A mask derived by the hashing chain is a reduced residue.
pub proof fn lemma_mask_bound(
    q: int,
    shared: int,
    pk: int,
    ad: Seq<u8>,
    dealer_index: int,
    recipient_index: int,
    component: int,
)
    requires
        q >= 2,
    ensures
        0 <= mega_mask(q, shared, pk, ad, dealer_index, recipient_index, component) < q,
{
}

/// The addressed receiver's decryption of a single-evaluation ciphertext
/// opens the simple commitment: the ciphertext and the commitment were
/// computed from the same coefficients.
pub proof fn lemma_single_decrypt_ok(
    c: MEGaCiphertextSingle,
    commitment: PolynomialCommitment,
    values: Seq<u64>,
    curve: EccCurveType,
    mega_state: int,
    recipients: Seq<MEGaPublicKey>,
    dealer_index: int,
    ad: Seq<u8>,
    recipient_index: int,
    private_key: MEGaPrivateKey,
    public_key: MEGaPublicKey,
)
    requires
        single_ciphertext_matches(c, curve, values, mega_state, recipients, dealer_index, ad),
        commitment matches PolynomialCommitment::Simple(sc) && simple_commitment_matches(
            sc,
            values,
            curve,
        ),
        recipients_consistent(recipients),
        recipients.len() >= 1,
        0 <= recipient_index < recipients.len(),
        0 <= mega_state < RNG_MODULUS,
        private_key.wf(),
        private_key.secret.curve == key_curve_of(recipients),
        public_key.point == recipients[recipient_index].point,
        public_key.point.value == private_key.secret.value,
    ensures
        MEGaCiphertext::Single(c).decrypt_and_check_spec(
            commitment,
            ad,
            dealer_index,
            recipient_index,
            private_key,
            public_key,
        ) is Ok,
{
    let q_k = order_of(key_curve_of(recipients));
    let q_s = order_of(curve);
    let eph = rng_after(mega_state, 1);
    crate::seed::lemma_rng_after_bound(mega_state, 1);
    let sk = private_key.secret.value as int;
    let pk = public_key.point.value as int;
    assert(sk * eph == eph * sk) by (nonlinear_arith);
    assert(fmul(q_k, sk, eph) == fmul(q_k, eph, pk));
    let mask = mega_mask(q_s, fmul(q_k, eph, pk), pk, ad, dealer_index, recipient_index, 0);
    let x = crate::curve::node_index_value(q_s, recipient_index);
    let pt = poly_eval_value(q_s, values, x);
    lemma_poly_eval_bound(q_s, values, x);
    lemma_mask_bound(q_s, fmul(q_k, eph, pk), pk, ad, dealer_index, recipient_index, 0);
    assert(c.ctexts@[recipient_index].value == fadd(q_s, pt, mask));
    lemma_unmask(q_s, pt, mask);
    let sc = commitment->Simple_0;
    assert(point_values(sc.points@) =~= values);
}

/// The addressed receiver's decryption of a pair ciphertext opens the
/// Pedersen commitment: the two unmasked evaluations recombine, under both
/// generators, to the commitment's evaluation.
pub proof fn lemma_pair_decrypt_ok(
    c: MEGaCiphertextPair,
    commitment: PolynomialCommitment,
    values: Seq<u64>,
    masks: Seq<u64>,
    curve: EccCurveType,
    mega_state: int,
    recipients: Seq<MEGaPublicKey>,
    dealer_index: int,
    ad: Seq<u8>,
    recipient_index: int,
    private_key: MEGaPrivateKey,
    public_key: MEGaPublicKey,
)
    requires
        pair_ciphertext_matches(c, curve, values, masks, mega_state, recipients, dealer_index, ad),
        commitment matches PolynomialCommitment::Pedersen(pc) && pedersen_commitment_matches(
            pc,
            values,
            masks,
            curve,
        ),
        recipients_consistent(recipients),
        recipients.len() >= 1,
        0 <= recipient_index < recipients.len(),
        0 <= mega_state < RNG_MODULUS,
        private_key.wf(),
        private_key.secret.curve == key_curve_of(recipients),
        public_key.point == recipients[recipient_index].point,
        public_key.point.value == private_key.secret.value,
    ensures
        MEGaCiphertext::Pairs(c).decrypt_and_check_spec(
            commitment,
            ad,
            dealer_index,
            recipient_index,
            private_key,
            public_key,
        ) is Ok,
{
    let q_k = order_of(key_curve_of(recipients));
    let q_s = order_of(curve);
    let eph = rng_after(mega_state, 1);
    crate::seed::lemma_rng_after_bound(mega_state, 1);
    let sk = private_key.secret.value as int;
    let pk = public_key.point.value as int;
    assert(sk * eph == eph * sk) by (nonlinear_arith);
    assert(fmul(q_k, sk, eph) == fmul(q_k, eph, pk));
    let shared = fmul(q_k, eph, pk);
    let mask0 = mega_mask(q_s, shared, pk, ad, dealer_index, recipient_index, 0);
    let mask1 = mega_mask(q_s, shared, pk, ad, dealer_index, recipient_index, 1);
    let x = crate::curve::node_index_value(q_s, recipient_index);
    let pt0 = poly_eval_value(q_s, values, x);
    let pt1 = poly_eval_value(q_s, masks, x);
    lemma_poly_eval_bound(q_s, values, x);
    lemma_poly_eval_bound(q_s, masks, x);
    lemma_mask_bound(q_s, shared, pk, ad, dealer_index, recipient_index, 0);
    lemma_mask_bound(q_s, shared, pk, ad, dealer_index, recipient_index, 1);
    assert(c.ctexts@[recipient_index].0.value == fadd(q_s, pt0, mask0));
    assert(c.ctexts@[recipient_index].1.value == fadd(q_s, pt1, mask1));
    lemma_unmask(q_s, pt0, mask0);
    lemma_unmask(q_s, pt1, mask1);
    let pc = commitment->Pedersen_0;
    lemma_pedersen_eval(q_s, values, masks, point_values(pc.points@), x);
}

/// A dealing constructed for a share descriptor passes private verification
/// for every honest receiver: the receiver holding the key pair registered
/// at its index decrypts a share that opens the commitment.
pub proof fn lemma_construct_then_verify_private(
    d: IDkgDealingInternal,
    shares: SecretShares,
    signature_curve: EccCurveType,
    key_curve: EccCurveType,
    seed: Seed,
    threshold: nat,
    recipients: Seq<MEGaPublicKey>,
    dealer_index: int,
    ad: Seq<u8>,
    recipient_index: int,
    private_key: MEGaPrivateKey,
    public_key: MEGaPublicKey,
)
    requires
        seed.wf(),
        shares.wf(),
        shares.curve_ok(signature_curve),
        recipients_consistent(recipients),
        1 <= threshold <= recipients.len(),
        key_curve == key_curve_of(recipients),
        dealing_of(d, shares, signature_curve, seed, threshold, recipients, dealer_index, ad),
        0 <= recipient_index < recipients.len(),
        private_key.wf(),
        private_key.secret.curve == key_curve,
        public_key.point == recipients[recipient_index].point,
        public_key.point.value == private_key.secret.value,
    ensures
        d.privately_verify_spec(
            key_curve,
            signature_curve,
            private_key,
            public_key,
            ad,
            dealer_index,
            recipient_index,
        ) == ThresholdEcdsaResult::<()>::Ok(()),
{
    let mega_state = seed_derive_value(
        seed.state as int,
        crate::seed::SEED_DOMAIN_DEALING_MEGA_ENCRYPT as int,
    );
    let poly_state = seed_derive_value(
        seed.state as int,
        crate::seed::SEED_DOMAIN_DEALING_POLYNOMIALS as int,
    );
    let q = order_of(signature_curve);
    match shares {
        SecretShares::Random => {
            let values = random_poly_values(poly_state, threshold);
            let masks = random_poly_values(rng_after(poly_state, threshold), threshold);
            lemma_pair_decrypt_ok(
                d.ciphertext->Pairs_0,
                d.commitment,
                values,
                masks,
                signature_curve,
                mega_state,
                recipients,
                dealer_index,
                ad,
                recipient_index,
                private_key,
                public_key,
            );
        },
        SecretShares::RandomUnmasked => {
            let values = random_poly_values(poly_state, threshold);
            lemma_single_decrypt_ok(
                d.ciphertext->Single_0,
                d.commitment,
                values,
                signature_curve,
                mega_state,
                recipients,
                dealer_index,
                ad,
                recipient_index,
                private_key,
                public_key,
            );
        },
        SecretShares::ReshareOfUnmasked(secret) => {
            let values = const_poly_values(secret.value, poly_state, threshold);
            lemma_single_decrypt_ok(
                d.ciphertext->Single_0,
                d.commitment,
                values,
                signature_curve,
                mega_state,
                recipients,
                dealer_index,
                ad,
                recipient_index,
                private_key,
                public_key,
            );
        },
        SecretShares::ReshareOfMasked(secret, masking) => {
            let values = const_poly_values(secret.value, poly_state, threshold);
            lemma_single_decrypt_ok(
                d.ciphertext->Single_0,
                d.commitment,
                values,
                signature_curve,
                mega_state,
                recipients,
                dealer_index,
                ad,
                recipient_index,
                private_key,
                public_key,
            );
        },
        SecretShares::UnmaskedTimesMasked(left, right) => {
            let product = fmul(q, left.value as int, right.0.value as int);
            let s1 = rng_after(poly_state, 1);
            let values = const_poly_values(product as u64, s1, threshold);
            let s2 = rng_after(s1, (threshold - 1) as nat);
            let masks = const_poly_values(s1 as u64, s2, threshold);
            lemma_pair_decrypt_ok(
                d.ciphertext->Pairs_0,
                d.commitment,
                values,
                masks,
                signature_curve,
                mega_state,
                recipients,
                dealer_index,
                ad,
                recipient_index,
                private_key,
                public_key,
            );
        },
    }
}

/// A dealing constructed for the unmasked-random descriptor fails public
/// verification under every other operation.  For the reshare-of-unmasked
/// operation the rejection holds whenever the prior commitment does not, by
/// chance, evaluate at the dealer's abscissa to the dealing's own random
/// constant term; that coincidence is the one input left out.
pub proof fn lemma_cross_operation_rejection(
    d: IDkgDealingInternal,
    signature_curve: EccCurveType,
    key_curve: EccCurveType,
    seed: Seed,
    threshold: nat,
    recipients: Seq<MEGaPublicKey>,
    dealer_index: int,
    ad: Seq<u8>,
    previous: PolynomialCommitment,
    lhs: PolynomialCommitment,
    rhs: PolynomialCommitment,
)
    requires
        seed.wf(),
        recipients_consistent(recipients),
        1 <= threshold <= recipients.len(),
        key_curve == key_curve_of(recipients),
        dealing_of(
            d,
            SecretShares::RandomUnmasked,
            signature_curve,
            seed,
            threshold,
            recipients,
            dealer_index,
            ad,
        ),
        previous.wf(),
        lhs.wf(),
        rhs.wf(),
        0 <= dealer_index,
    ensures
        d.publicly_verify_spec(
            key_curve,
            signature_curve,
            IDkgTranscriptOperationInternal::Random,
            threshold as int,
            dealer_index,
            recipients.len() as int,
            ad,
        ) == ThresholdEcdsaResult::<()>::Err(ThresholdEcdsaError::UnexpectedCommitmentType),
        d.publicly_verify_spec(
            key_curve,
            signature_curve,
            IDkgTranscriptOperationInternal::ReshareOfMasked(previous),
            threshold as int,
            dealer_index,
            recipients.len() as int,
            ad,
        ) == ThresholdEcdsaResult::<()>::Err(ThresholdEcdsaError::InvalidProof),
        d.publicly_verify_spec(
            key_curve,
            signature_curve,
            IDkgTranscriptOperationInternal::UnmaskedTimesMasked(lhs, rhs),
            threshold as int,
            dealer_index,
            recipients.len() as int,
            ad,
        ) == ThresholdEcdsaResult::<()>::Err(ThresholdEcdsaError::InvalidProof),
        (previous is Pedersen || (previous matches PolynomialCommitment::Simple(ps) && (EccPoint {
            curve: ps.curve,
            value: commitment_eval_value(order_of(ps.curve), ps.points@, dealer_index) as u64,
        }) != d.commitment.points_seq()[0])) ==> d.publicly_verify_spec(
            key_curve,
            signature_curve,
            IDkgTranscriptOperationInternal::ReshareOfUnmasked(previous),
            threshold as int,
            dealer_index,
            recipients.len() as int,
            ad,
        ) is Err,
{
    let mega_state = seed_derive_value(
        seed.state as int,
        crate::seed::SEED_DOMAIN_DEALING_MEGA_ENCRYPT as int,
    );
    crate::seed::lemma_rng_after_bound(mega_state, 1);
}

/// Resharing consistency: a dealing constructed to re-share an unmasked
/// secret passes public verification exactly when the prior commitment
/// evaluates, at the dealer's abscissa, to that secret; re-sharing a
/// different value is rejected as an invalid commitment.
pub proof fn lemma_reshare_unmasked_consistency(
    d: IDkgDealingInternal,
    secret: crate::curve::EccScalar,
    signature_curve: EccCurveType,
    key_curve: EccCurveType,
    seed: Seed,
    threshold: nat,
    recipients: Seq<MEGaPublicKey>,
    dealer_index: int,
    ad: Seq<u8>,
    previous: PolynomialCommitment,
)
    requires
        seed.wf(),
        secret.wf(),
        secret.curve == signature_curve,
        recipients_consistent(recipients),
        1 <= threshold <= recipients.len(),
        key_curve == key_curve_of(recipients),
        dealing_of(
            d,
            SecretShares::ReshareOfUnmasked(secret),
            signature_curve,
            seed,
            threshold,
            recipients,
            dealer_index,
            ad,
        ),
        previous.wf(),
        previous is Simple,
        previous.spec_curve() == signature_curve,
        0 <= dealer_index,
    ensures
        commitment_eval_value(order_of(signature_curve), previous.points_seq(), dealer_index)
            == secret.value ==> d.publicly_verify_spec(
            key_curve,
            signature_curve,
            IDkgTranscriptOperationInternal::ReshareOfUnmasked(previous),
            threshold as int,
            dealer_index,
            recipients.len() as int,
            ad,
        ) == ThresholdEcdsaResult::<()>::Ok(()),
        commitment_eval_value(order_of(signature_curve), previous.points_seq(), dealer_index)
            != secret.value ==> d.publicly_verify_spec(
            key_curve,
            signature_curve,
            IDkgTranscriptOperationInternal::ReshareOfUnmasked(previous),
            threshold as int,
            dealer_index,
            recipients.len() as int,
            ad,
        ) == ThresholdEcdsaResult::<()>::Err(ThresholdEcdsaError::InvalidCommitment),
{
    let q = order_of(signature_curve);
    let eval = commitment_eval_value(q, previous.points_seq(), dealer_index);
    lemma_poly_eval_bound(
        q,
        point_values(previous.points_seq()),
        crate::curve::node_index_value(q, dealer_index),
    );
    if eval == secret.value {
        lemma_construct_then_verify_public(
            d,
            SecretShares::ReshareOfUnmasked(secret),
            signature_curve,
            key_curve,
            seed,
            threshold,
            recipients,
            dealer_index,
            ad,
            IDkgTranscriptOperationInternal::ReshareOfUnmasked(previous),
        );
    } else {
        let mega_state = seed_derive_value(
            seed.state as int,
            crate::seed::SEED_DOMAIN_DEALING_MEGA_ENCRYPT as int,
        );
        crate::seed::lemma_rng_after_bound(mega_state, 1);
        let poly_state = seed_derive_value(
            seed.state as int,
            crate::seed::SEED_DOMAIN_DEALING_POLYNOMIALS as int,
        );
        let values = const_poly_values(secret.value, poly_state, threshold);
        assert(values[0] == secret.value);
        assert(d.commitment.points_seq()[0] == (EccPoint {
            curve: signature_curve,
            value: secret.value,
        }));
    }
}

/// Private verification detects a receiver decrypting with the wrong key
/// pair: whenever the mask the presented key derives differs from the mask
/// the dealer used for that entry, the decrypted value fails the commitment
/// cross-check.  (A different key pair whose derived mask collides with the
/// dealer's is the one input left out.)
pub proof fn lemma_wrong_key_detected(
    d: IDkgDealingInternal,
    values: Seq<u64>,
    signature_curve: EccCurveType,
    key_curve: EccCurveType,
    mega_state: int,
    recipients: Seq<MEGaPublicKey>,
    dealer_index: int,
    ad: Seq<u8>,
    recipient_index: int,
    private_key: MEGaPrivateKey,
    public_key: MEGaPublicKey,
)
    requires
        d.ciphertext matches MEGaCiphertext::Single(c) && single_ciphertext_matches(
            c,
            signature_curve,
            values,
            mega_state,
            recipients,
            dealer_index,
            ad,
        ),
        d.commitment matches PolynomialCommitment::Simple(sc) && simple_commitment_matches(
            sc,
            values,
            signature_curve,
        ),
        recipients_consistent(recipients),
        recipients.len() >= 1,
        0 <= recipient_index < recipients.len(),
        0 <= mega_state < RNG_MODULUS,
        private_key.wf(),
        private_key.secret.curve == key_curve,
        public_key.wf(),
        public_key.point.curve == key_curve,
        key_curve == key_curve_of(recipients),
        ({
            let q_k = order_of(key_curve_of(recipients));
            let q_s = order_of(signature_curve);
            let eph = rng_after(mega_state, 1);
            mega_mask(
                q_s,
                fmul(q_k, private_key.secret.value as int, eph),
                public_key.point.value as int,
                ad,
                dealer_index,
                recipient_index,
                0,
            ) != mega_mask(
                q_s,
                fmul(q_k, eph, recipients[recipient_index].point.value as int),
                recipients[recipient_index].point.value as int,
                ad,
                dealer_index,
                recipient_index,
                0,
            )
        }),
    ensures
        d.privately_verify_spec(
            key_curve,
            signature_curve,
            private_key,
            public_key,
            ad,
            dealer_index,
            recipient_index,
        ) == ThresholdEcdsaResult::<()>::Err(ThresholdEcdsaError::InvalidCommitment),
{
    let q_k = order_of(key_curve_of(recipients));
    let q_s = order_of(signature_curve);
    let eph = rng_after(mega_state, 1);
    crate::seed::lemma_rng_after_bound(mega_state, 1);
    let pk_true = recipients[recipient_index].point.value as int;
    let mask_true = mega_mask(
        q_s,
        fmul(q_k, eph, pk_true),
        pk_true,
        ad,
        dealer_index,
        recipient_index,
        0,
    );
    let mask_presented = mega_mask(
        q_s,
        fmul(q_k, private_key.secret.value as int, eph),
        public_key.point.value as int,
        ad,
        dealer_index,
        recipient_index,
        0,
    );
    let x = crate::curve::node_index_value(q_s, recipient_index);
    let pt = poly_eval_value(q_s, values, x);
    lemma_poly_eval_bound(q_s, values, x);
    lemma_mask_bound(q_s, fmul(q_k, eph, pk_true), pk_true, ad, dealer_index, recipient_index, 0);
    lemma_mask_bound(
        q_s,
        fmul(q_k, private_key.secret.value as int, eph),
        public_key.point.value as int,
        ad,
        dealer_index,
        recipient_index,
        0,
    );
    let c = d.ciphertext->Single_0;
    assert(c.ctexts@[recipient_index].value == fadd(q_s, pt, mask_true));
    lemma_unmask_wrong(q_s, pt, mask_true, mask_presented);
    let sc = d.commitment->Simple_0;
    assert(point_values(sc.points@) =~= values);
}

} // verus!
