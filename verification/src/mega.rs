//! MEGa-style public-key encryption of shares.
//!
//! A ciphertext carries one masked evaluation (or evaluation pair) per
//! receiver, an ephemeral public key, and a binding tag over the associated
//! data and the dealer index, so a ciphertext cannot be replayed by a
//! different dealer or in a different protocol context.  Masks are derived
//! from a Diffie-Hellman agreement between the ephemeral key and each
//! receiver's key, so only the addressed receiver can strip them.

use vstd::prelude::*;

use crate::commitment::{commitment_eval_value, CommitmentOpening, PolynomialCommitment};
use crate::curve::{fadd, fmul, fsub, order_of, pedersen_value, EccCurveType, EccPoint, EccScalar};
use crate::seed::{absorb_bytes, absorb_bytes_exec, absorb_one, absorb_one_exec, rng_after,
    rng_step, Rand, Seed};
use crate::{NodeIndex, ThresholdEcdsaError, ThresholdEcdsaResult};

verus! {

/// Domain tag of the share-mask derivation chain.
pub const HASH_DOMAIN_MASK: u64 = 1;

/// Domain tag of the ciphertext binding tag chain.
pub const HASH_DOMAIN_POP: u64 = 2;

/// The two shapes of ciphertext.
#[derive(Clone, Copy, Debug, PartialEq, Eq, Structural)]
pub enum MEGaCiphertextType {
    Single,
    Pairs,
}

/// A receiver's public key.
#[derive(Clone, Copy, Debug, PartialEq, Eq, Structural)]
pub struct MEGaPublicKey {
    pub point: EccPoint,
}

/// A receiver's private key.
#[derive(Clone, Copy, Debug, PartialEq, Eq, Structural)]
pub struct MEGaPrivateKey {
    pub secret: EccScalar,
}

impl MEGaPublicKey {
    pub open spec fn wf(self) -> bool {
        self.point.wf()
    }

    pub fn new(point: EccPoint) -> (r: MEGaPublicKey)
        ensures
            r.point == point,
    {
        MEGaPublicKey { point }
    }

    pub fn curve_type(&self) -> (r: EccCurveType)
        ensures
            r == self.point.curve,
    {
        self.point.curve
    }
}

impl MEGaPrivateKey {
    pub open spec fn wf(self) -> bool {
        self.secret.wf()
    }

    /// A private key drawn from the deterministic random stream.
    pub fn generate(curve: EccCurveType, rng: &mut Rand) -> (r: MEGaPrivateKey)
        requires
            old(rng).wf(),
        ensures
            r.secret.curve == curve,
            r.secret.value == rng_after(old(rng).state as int, 1),
            final(rng).wf(),
            r.wf(),
    {
        let secret = EccScalar::random(curve, rng);
        proof {
            assert(rng_after(old(rng).state as int, 0) == old(rng).state as int);
            assert(rng_after(old(rng).state as int, 1) == rng_step(
                rng_after(old(rng).state as int, 0),
            ));
        }
        MEGaPrivateKey { secret }
    }

    pub fn curve_type(&self) -> (r: EccCurveType)
        ensures
            r == self.secret.curve,
    {
        self.secret.curve
    }

    /// The public key of this private key: `g^secret`.
    pub fn public_key(&self) -> (r: MEGaPublicKey)
        requires
            self.wf(),
        ensures
            r.point.curve == self.secret.curve,
            r.point.value == self.secret.value,
            r.wf(),
    {
        MEGaPublicKey { point: EccPoint::mul_by_g(&self.secret) }
    }
}

/// The share mask a receiver strips from its ciphertext entry: a hash of
/// the Diffie-Hellman agreement, the receiver's public key, the associated
/// data, the dealer index, the receiver index and the component index.
pub open spec fn mega_mask(
    q: int,
    shared: int,
    pk: int,
    ad: Seq<u8>,
    dealer_index: int,
    recipient_index: int,
    component: int,
) -> int {
    absorb_one(
        q,
        absorb_one(
            q,
            absorb_one(
                q,
                absorb_one(
                    q,
                    absorb_one(q, absorb_bytes(q, HASH_DOMAIN_MASK as int, ad), dealer_index),
                    recipient_index,
                ),
                component,
            ),
            pk,
        ),
        shared,
    )
}

/// The binding tag of a ciphertext over its ephemeral key, the associated
/// data and the dealer index.
pub open spec fn pop_value(q: int, epk: int, ad: Seq<u8>, dealer_index: int) -> int {
    absorb_one(q, absorb_one(q, absorb_bytes(q, HASH_DOMAIN_POP as int, ad), dealer_index), epk)
}

/// Derive a share mask.
fn mega_mask_exec(
    q: u64,
    shared: u64,
    pk: u64,
    ad: &[u8],
    dealer_index: NodeIndex,
    recipient_index: u64,
    component: u64,
) -> (r: u64)
    requires
        8 <= q <= 0xFFFF_FFFF,
    ensures
        r == mega_mask(
            q as int,
            shared as int,
            pk as int,
            ad@,
            dealer_index as int,
            recipient_index as int,
            component as int,
        ),
        r < q,
{
    let h0 = absorb_bytes_exec(q, HASH_DOMAIN_MASK, ad);
    let h1 = absorb_one_exec(q, h0, dealer_index as u64);
    let h2 = absorb_one_exec(q, h1, recipient_index);
    let h3 = absorb_one_exec(q, h2, component);
    let h4 = absorb_one_exec(q, h3, pk);
    absorb_one_exec(q, h4, shared)
}

/// Derive a ciphertext binding tag.
fn pop_value_exec(q: u64, epk: u64, ad: &[u8], dealer_index: NodeIndex) -> (r: u64)
    requires
        8 <= q <= 0xFFFF_FFFF,
    ensures
        r == pop_value(q as int, epk as int, ad@, dealer_index as int),
        r < q,
{
    let h0 = absorb_bytes_exec(q, HASH_DOMAIN_POP, ad);
    let h1 = absorb_one_exec(q, h0, dealer_index as u64);
    absorb_one_exec(q, h1, epk)
}

/// A nonempty list of well-formed scalars, all of one curve.
pub open spec fn scalars_uniform(s: Seq<EccScalar>) -> bool {
    &&& s.len() >= 1
    &&& forall|i: int| 0 <= i < s.len() ==> (#[trigger] s[i]).wf() && s[i].curve == s[0].curve
}

/// A nonempty list of well-formed scalar pairs, all of one curve.
pub open spec fn scalar_pairs_uniform(s: Seq<(EccScalar, EccScalar)>) -> bool {
    &&& s.len() >= 1
    &&& forall|i: int|
        0 <= i < s.len() ==> (#[trigger] s[i]).0.wf() && s[i].1.wf() && s[i].0.curve
            == s[0].0.curve && s[i].1.curve == s[0].0.curve
}

/// All receiver keys are well-formed and lie on one curve.
pub open spec fn recipients_consistent(recipients: Seq<MEGaPublicKey>) -> bool {
    forall|i: int|
        0 <= i < recipients.len() ==> (#[trigger] recipients[i]).wf() && recipients[i].point.curve
            == recipients[0].point.curve
}

/// The curve the receiver keys live on.
pub open spec fn key_curve_of(recipients: Seq<MEGaPublicKey>) -> EccCurveType {
    recipients[0].point.curve
}

/// The ciphertext entry of receiver `i`, component `component`: the
/// plaintext plus the mask derived from the Diffie-Hellman agreement of the
/// ephemeral secret and that receiver's key.
pub open spec fn masked_value(
    q_k: int,
    q_s: int,
    eph: int,
    pk: int,
    pt: int,
    ad: Seq<u8>,
    dealer_index: int,
    recipient_index: int,
    component: int,
) -> int {
    fadd(
        q_s,
        pt,
        mega_mask(q_s, fmul(q_k, eph, pk), pk, ad, dealer_index, recipient_index, component),
    )
}


/// Check that every receiver key is well-formed and on one curve; the order
/// of that curve on success.
fn check_recipients(recipients: &Vec<MEGaPublicKey>) -> (r: ThresholdEcdsaResult<u64>)
    requires
        recipients@.len() >= 1,
    ensures
        r is Ok <==> recipients_consistent(recipients@),
        r is Err ==> r->Err_0 == ThresholdEcdsaError::CurveMismatch,
        r is Ok ==> r->Ok_0 == order_of(key_curve_of(recipients@)),
{
    let n = recipients.len();
    let key_curve = recipients[0].point.curve;
    let q_k = key_curve.order();
    let mut i: usize = 0;
    while i < n
        invariant
            i <= n,
            n == recipients@.len(),
            n >= 1,
            key_curve == key_curve_of(recipients@),
            q_k == order_of(key_curve),
            forall|j: int|
                0 <= j < i ==> (#[trigger] recipients@[j]).wf() && recipients@[j].point.curve
                    == key_curve,
        decreases n - i,
    {
        let pk = &recipients[i];
        if !(pk.point.curve == key_curve) || pk.point.value >= q_k {
            return Err(ThresholdEcdsaError::CurveMismatch);
        }
        i = i + 1;
    }
    Ok(q_k)
}

/// Mask one evaluation per receiver under the ephemeral secret.
fn mask_single(
    eph_scalar: &EccScalar,
    plaintexts: &Vec<EccScalar>,
    recipients: &Vec<MEGaPublicKey>,
    dealer_index: NodeIndex,
    associated_data: &[u8],
) -> (r: Vec<EccScalar>)
    requires
        plaintexts@.len() == recipients@.len(),
        scalars_uniform(plaintexts@),
        recipients_consistent(recipients@),
        eph_scalar.wf(),
        eph_scalar.curve == key_curve_of(recipients@),
    ensures
        r@.len() == plaintexts@.len(),
        forall|i: int|
            0 <= i < plaintexts@.len() ==> (#[trigger] r@[i]).curve == plaintexts@[0].curve
                && r@[i].value == masked_value(
                order_of(key_curve_of(recipients@)),
                order_of(plaintexts@[0].curve),
                eph_scalar.value as int,
                recipients@[i].point.value as int,
                plaintexts@[i].value as int,
                associated_data@,
                dealer_index as int,
                i,
                0,
            ),
        scalars_uniform(r@),
{
    let n = recipients.len();
    let sig_curve = plaintexts[0].curve;
    let q_s = sig_curve.order();
    let ghost key_curve = key_curve_of(recipients@);
    let ghost q_k = order_of(key_curve);
    let mut ctexts: Vec<EccScalar> = Vec::new();
    let mut k: usize = 0;
    while k < n
        invariant
            k <= n,
            n == recipients@.len(),
            n == plaintexts@.len(),
            n >= 1,
            scalars_uniform(plaintexts@),
            recipients_consistent(recipients@),
            sig_curve == plaintexts@[0].curve,
            q_s == order_of(sig_curve),
            key_curve == key_curve_of(recipients@),
            q_k == order_of(key_curve),
            eph_scalar.wf(),
            eph_scalar.curve == key_curve,
            ctexts@.len() == k,
            forall|j: int|
                0 <= j < k ==> (#[trigger] ctexts@[j]).curve == sig_curve && ctexts@[j].value
                    == masked_value(
                    q_k,
                    q_s as int,
                    eph_scalar.value as int,
                    recipients@[j].point.value as int,
                    plaintexts@[j].value as int,
                    associated_data@,
                    dealer_index as int,
                    j,
                    0,
                ),
        decreases n - k,
    {
        let shared = recipients[k].point.scalar_mul(eph_scalar);
        let mask = mega_mask_exec(
            q_s,
            shared.value,
            recipients[k].point.value,
            associated_data,
            dealer_index,
            k as u64,
            0,
        );
        let value = (plaintexts[k].value + mask) % q_s;
        ctexts.push(EccScalar { curve: sig_curve, value });
        k = k + 1;
    }
    ctexts
}

/// Mask one evaluation pair per receiver under the ephemeral secret.
fn mask_pairs(
    eph_scalar: &EccScalar,
    plaintexts: &Vec<(EccScalar, EccScalar)>,
    recipients: &Vec<MEGaPublicKey>,
    dealer_index: NodeIndex,
    associated_data: &[u8],
) -> (r: Vec<(EccScalar, EccScalar)>)
    requires
        plaintexts@.len() == recipients@.len(),
        scalar_pairs_uniform(plaintexts@),
        recipients_consistent(recipients@),
        eph_scalar.wf(),
        eph_scalar.curve == key_curve_of(recipients@),
    ensures
        r@.len() == plaintexts@.len(),
        forall|i: int|
            0 <= i < plaintexts@.len() ==> (#[trigger] r@[i]).0.curve == plaintexts@[0].0.curve
                && r@[i].1.curve == plaintexts@[0].0.curve && r@[i].0.value == masked_value(
                order_of(key_curve_of(recipients@)),
                order_of(plaintexts@[0].0.curve),
                eph_scalar.value as int,
                recipients@[i].point.value as int,
                plaintexts@[i].0.value as int,
                associated_data@,
                dealer_index as int,
                i,
                0,
            ) && r@[i].1.value == masked_value(
                order_of(key_curve_of(recipients@)),
                order_of(plaintexts@[0].0.curve),
                eph_scalar.value as int,
                recipients@[i].point.value as int,
                plaintexts@[i].1.value as int,
                associated_data@,
                dealer_index as int,
                i,
                1,
            ),
        scalar_pairs_uniform(r@),
{
    let n = recipients.len();
    let sig_curve = plaintexts[0].0.curve;
    let q_s = sig_curve.order();
    let ghost key_curve = key_curve_of(recipients@);
    let ghost q_k = order_of(key_curve);
    let mut ctexts: Vec<(EccScalar, EccScalar)> = Vec::new();
    let mut k: usize = 0;
    while k < n
        invariant
            k <= n,
            n == recipients@.len(),
            n == plaintexts@.len(),
            n >= 1,
            scalar_pairs_uniform(plaintexts@),
            recipients_consistent(recipients@),
            sig_curve == plaintexts@[0].0.curve,
            q_s == order_of(sig_curve),
            key_curve == key_curve_of(recipients@),
            q_k == order_of(key_curve),
            eph_scalar.wf(),
            eph_scalar.curve == key_curve,
            ctexts@.len() == k,
            forall|j: int|
                0 <= j < k ==> (#[trigger] ctexts@[j]).0.curve == sig_curve && ctexts@[j].1.curve
                    == sig_curve && ctexts@[j].0.value == masked_value(
                    q_k,
                    q_s as int,
                    eph_scalar.value as int,
                    recipients@[j].point.value as int,
                    plaintexts@[j].0.value as int,
                    associated_data@,
                    dealer_index as int,
                    j,
                    0,
                ) && ctexts@[j].1.value == masked_value(
                    q_k,
                    q_s as int,
                    eph_scalar.value as int,
                    recipients@[j].point.value as int,
                    plaintexts@[j].1.value as int,
                    associated_data@,
                    dealer_index as int,
                    j,
                    1,
                ),
        decreases n - k,
    {
        let shared = recipients[k].point.scalar_mul(eph_scalar);
        let mask0 = mega_mask_exec(
            q_s,
            shared.value,
            recipients[k].point.value,
            associated_data,
            dealer_index,
            k as u64,
            0,
        );
        let mask1 = mega_mask_exec(
            q_s,
            shared.value,
            recipients[k].point.value,
            associated_data,
            dealer_index,
            k as u64,
            1,
        );
        let value0 = (plaintexts[k].0.value + mask0) % q_s;
        let value1 = (plaintexts[k].1.value + mask1) % q_s;
        ctexts.push(
            (EccScalar { curve: sig_curve, value: value0 }, EccScalar {
                curve: sig_curve,
                value: value1,
            }),
        );
        k = k + 1;
    }
    ctexts
}

/// A ciphertext carrying one masked evaluation per receiver.
#[derive(Clone, Debug, PartialEq, Eq)]
pub struct MEGaCiphertextSingle {
    pub ephemeral_key: EccPoint,
    pub pop: u64,
    pub ctexts: Vec<EccScalar>,
}

/// A ciphertext carrying one masked evaluation pair per receiver.
#[derive(Clone, Debug, PartialEq, Eq)]
pub struct MEGaCiphertextPair {
    pub ephemeral_key: EccPoint,
    pub pop: u64,
    pub ctexts: Vec<(EccScalar, EccScalar)>,
}

impl MEGaCiphertextSingle {
    pub open spec fn wf(self) -> bool {
        &&& self.ephemeral_key.wf()
        &&& scalars_uniform(self.ctexts@)
    }

    /// Encrypt one evaluation per receiver, with randomness derived from
    /// the given seed.
    #[verifier::rlimit(100)]
    pub fn encrypt(
        seed: Seed,
        plaintexts: &Vec<EccScalar>,
        recipients: &Vec<MEGaPublicKey>,
        dealer_index: NodeIndex,
        associated_data: &[u8],
    ) -> (r: ThresholdEcdsaResult<MEGaCiphertextSingle>)
        requires
            seed.wf(),
            plaintexts@.len() == recipients@.len(),
            scalars_uniform(plaintexts@),
        ensures
            r is Ok <==> recipients_consistent(recipients@),
            r is Err ==> r->Err_0 == ThresholdEcdsaError::CurveMismatch,
            r is Ok ==> ({
                let c = r->Ok_0;
                let q_k = order_of(key_curve_of(recipients@));
                let q_s = order_of(plaintexts@[0].curve);
                let eph = rng_after(seed.state as int, 1);
                &&& c.ephemeral_key.curve == key_curve_of(recipients@)
                &&& c.ephemeral_key.value == eph
                &&& c.pop == pop_value(q_s, eph, associated_data@, dealer_index as int)
                &&& c.ctexts@.len() == plaintexts@.len()
                &&& forall|i: int|
                    0 <= i < plaintexts@.len() ==> (#[trigger] c.ctexts@[i]).curve
                        == plaintexts@[0].curve && c.ctexts@[i].value == masked_value(
                        q_k,
                        q_s,
                        eph,
                        recipients@[i].point.value as int,
                        plaintexts@[i].value as int,
                        associated_data@,
                        dealer_index as int,
                        i,
                        0,
                    )
                &&& c.wf()
            }),
    {
        let q_k = match check_recipients(recipients) {
            Ok(q) => q,
            Err(e) => {
                return Err(e);
            },
        };
        let key_curve = recipients[0].point.curve;
        let sig_curve = plaintexts[0].curve;
        let q_s = sig_curve.order();
        let mut rng = seed.into_rng();
        let eph_scalar = EccScalar::random(key_curve, &mut rng);
        proof {
            assert(rng_after(seed.state as int, 0) == seed.state as int);
            assert(rng_after(seed.state as int, 1) == rng_step(rng_after(seed.state as int, 0)));
        }
        let ephemeral_key = EccPoint::mul_by_g(&eph_scalar);
        let pop = pop_value_exec(q_s, ephemeral_key.value, associated_data, dealer_index);
        let ctexts = mask_single(&eph_scalar, plaintexts, recipients, dealer_index, associated_data);
        Ok(MEGaCiphertextSingle { ephemeral_key, pop, ctexts })
    }
}

impl MEGaCiphertextPair {
    pub open spec fn wf(self) -> bool {
        &&& self.ephemeral_key.wf()
        &&& scalar_pairs_uniform(self.ctexts@)
    }

    /// Encrypt one evaluation pair per receiver, with randomness derived
    /// from the given seed.
    #[verifier::rlimit(100)]
    pub fn encrypt(
        seed: Seed,
        plaintexts: &Vec<(EccScalar, EccScalar)>,
        recipients: &Vec<MEGaPublicKey>,
        dealer_index: NodeIndex,
        associated_data: &[u8],
    ) -> (r: ThresholdEcdsaResult<MEGaCiphertextPair>)
        requires
            seed.wf(),
            plaintexts@.len() == recipients@.len(),
            scalar_pairs_uniform(plaintexts@),
        ensures
            r is Ok <==> recipients_consistent(recipients@),
            r is Err ==> r->Err_0 == ThresholdEcdsaError::CurveMismatch,
            r is Ok ==> ({
                let c = r->Ok_0;
                let q_k = order_of(key_curve_of(recipients@));
                let q_s = order_of(plaintexts@[0].0.curve);
                let eph = rng_after(seed.state as int, 1);
                &&& c.ephemeral_key.curve == key_curve_of(recipients@)
                &&& c.ephemeral_key.value == eph
                &&& c.pop == pop_value(q_s, eph, associated_data@, dealer_index as int)
                &&& c.ctexts@.len() == plaintexts@.len()
                &&& forall|i: int|
                    0 <= i < plaintexts@.len() ==> (#[trigger] c.ctexts@[i]).0.curve
                        == plaintexts@[0].0.curve && c.ctexts@[i].1.curve == plaintexts@[0].0.curve
                        && c.ctexts@[i].0.value == masked_value(
                        q_k,
                        q_s,
                        eph,
                        recipients@[i].point.value as int,
                        plaintexts@[i].0.value as int,
                        associated_data@,
                        dealer_index as int,
                        i,
                        0,
                    ) && c.ctexts@[i].1.value == masked_value(
                        q_k,
                        q_s,
                        eph,
                        recipients@[i].point.value as int,
                        plaintexts@[i].1.value as int,
                        associated_data@,
                        dealer_index as int,
                        i,
                        1,
                    )
                &&& c.wf()
            }),
    {
        let q_k = match check_recipients(recipients) {
            Ok(q) => q,
            Err(e) => {
                return Err(e);
            },
        };
        let key_curve = recipients[0].point.curve;
        let sig_curve = plaintexts[0].0.curve;
        let q_s = sig_curve.order();
        let mut rng = seed.into_rng();
        let eph_scalar = EccScalar::random(key_curve, &mut rng);
        proof {
            assert(rng_after(seed.state as int, 0) == seed.state as int);
            assert(rng_after(seed.state as int, 1) == rng_step(rng_after(seed.state as int, 0)));
        }
        let ephemeral_key = EccPoint::mul_by_g(&eph_scalar);
        let pop = pop_value_exec(q_s, ephemeral_key.value, associated_data, dealer_index);
        let ctexts = mask_pairs(&eph_scalar, plaintexts, recipients, dealer_index, associated_data);
        Ok(MEGaCiphertextPair { ephemeral_key, pop, ctexts })
    }
}

/// A ciphertext of either shape.
#[derive(Clone, Debug, PartialEq, Eq)]
pub enum MEGaCiphertext {
    Single(MEGaCiphertextSingle),
    Pairs(MEGaCiphertextPair),
}

impl MEGaCiphertext {
    pub open spec fn wf(self) -> bool {
        match self {
            MEGaCiphertext::Single(c) => c.wf(),
            MEGaCiphertext::Pairs(c) => c.wf(),
        }
    }

    pub open spec fn spec_ctype(self) -> MEGaCiphertextType {
        match self {
            MEGaCiphertext::Single(_) => MEGaCiphertextType::Single,
            MEGaCiphertext::Pairs(_) => MEGaCiphertextType::Pairs,
        }
    }

    pub open spec fn spec_epk(self) -> EccPoint {
        match self {
            MEGaCiphertext::Single(c) => c.ephemeral_key,
            MEGaCiphertext::Pairs(c) => c.ephemeral_key,
        }
    }

    pub open spec fn spec_pop(self) -> u64 {
        match self {
            MEGaCiphertext::Single(c) => c.pop,
            MEGaCiphertext::Pairs(c) => c.pop,
        }
    }

    pub open spec fn spec_len(self) -> nat {
        match self {
            MEGaCiphertext::Single(c) => c.ctexts@.len(),
            MEGaCiphertext::Pairs(c) => c.ctexts@.len(),
        }
    }

    /// The curve the masked evaluations live on (the signature curve).
    pub open spec fn spec_curve(self) -> EccCurveType {
        match self {
            MEGaCiphertext::Single(c) => c.ctexts@[0].curve,
            MEGaCiphertext::Pairs(c) => c.ctexts@[0].0.curve,
        }
    }

    pub fn ctype(&self) -> (r: MEGaCiphertextType)
        ensures
            r == self.spec_ctype(),
    {
        match self {
            MEGaCiphertext::Single(_) => MEGaCiphertextType::Single,
            MEGaCiphertext::Pairs(_) => MEGaCiphertextType::Pairs,
        }
    }

    pub fn len(&self) -> (r: usize)
        ensures
            r == self.spec_len(),
    {
        match self {
            MEGaCiphertext::Single(c) => c.ctexts.len(),
            MEGaCiphertext::Pairs(c) => c.ctexts.len(),
        }
    }

    /// What [`MEGaCiphertext::check_validity`] returns: the structural
    /// checks a node can run without any secret key.
    pub open spec fn check_validity_spec(
        self,
        num_receivers: int,
        ad: Seq<u8>,
        dealer_index: int,
    ) -> ThresholdEcdsaResult<()> {
        if self.spec_len() != num_receivers {
            Err(ThresholdEcdsaError::InvalidCiphertext)
        } else if self.spec_pop() != pop_value(
            order_of(self.spec_curve()),
            self.spec_epk().value as int,
            ad,
            dealer_index,
        ) {
            Err(ThresholdEcdsaError::InvalidCiphertext)
        } else {
            Ok(())
        }
    }

    /// Structural ciphertext validity: one entry per receiver, and a
    /// binding tag that matches the associated data and the dealer index.
    pub fn check_validity(
        &self,
        num_receivers: usize,
        associated_data: &[u8],
        dealer_index: NodeIndex,
    ) -> (r: ThresholdEcdsaResult<()>)
        requires
            self.wf(),
        ensures
            r == self.check_validity_spec(
                num_receivers as int,
                associated_data@,
                dealer_index as int,
            ),
    {
        if self.len() != num_receivers {
            return Err(ThresholdEcdsaError::InvalidCiphertext);
        }
        let (q_s, epk_value, pop) = match self {
            MEGaCiphertext::Single(c) => (
                c.ctexts[0].curve.order(),
                c.ephemeral_key.value,
                c.pop,
            ),
            MEGaCiphertext::Pairs(c) => (
                c.ctexts[0].0.curve.order(),
                c.ephemeral_key.value,
                c.pop,
            ),
        };
        let expected = pop_value_exec(q_s, epk_value, associated_data, dealer_index);
        if pop != expected {
            return Err(ThresholdEcdsaError::InvalidCiphertext);
        }
        Ok(())
    }

    /// What [`MEGaCiphertext::verify_is`] returns: the expected shape, the
    /// expected key curve, the expected signature curve.
    pub open spec fn verify_is_spec(
        self,
        ctype: MEGaCiphertextType,
        key_curve: EccCurveType,
        signature_curve: EccCurveType,
    ) -> ThresholdEcdsaResult<()> {
        if self.spec_ctype() != ctype {
            Err(ThresholdEcdsaError::InvalidCiphertext)
        } else if self.spec_epk().curve != key_curve {
            Err(ThresholdEcdsaError::CurveMismatch)
        } else if self.spec_curve() != signature_curve {
            Err(ThresholdEcdsaError::CurveMismatch)
        } else {
            Ok(())
        }
    }

    /// Check that the ciphertext has the expected shape and curves.
    pub fn verify_is(
        &self,
        ctype: MEGaCiphertextType,
        key_curve: EccCurveType,
        signature_curve: EccCurveType,
    ) -> (r: ThresholdEcdsaResult<()>)
        requires
            self.wf(),
        ensures
            r == self.verify_is_spec(ctype, key_curve, signature_curve),
    {
        let own = self.ctype();
        if !(own == ctype) {
            return Err(ThresholdEcdsaError::InvalidCiphertext);
        }
        let (epk_curve, sig_curve) = match self {
            MEGaCiphertext::Single(c) => (c.ephemeral_key.curve, c.ctexts[0].curve),
            MEGaCiphertext::Pairs(c) => (c.ephemeral_key.curve, c.ctexts[0].0.curve),
        };
        if !(epk_curve == key_curve) {
            return Err(ThresholdEcdsaError::CurveMismatch);
        }
        if !(sig_curve == signature_curve) {
            return Err(ThresholdEcdsaError::CurveMismatch);
        }
        Ok(())
    }

    /// What [`MEGaCiphertext::decrypt_and_check`] returns: the receiver's
    /// entry, unmasked with the receiver's key, accepted only if it opens
    /// the commitment at the receiver's abscissa.
    pub open spec fn decrypt_and_check_spec(
        self,
        commitment: PolynomialCommitment,
        ad: Seq<u8>,
        dealer_index: int,
        recipient_index: int,
        private_key: MEGaPrivateKey,
        public_key: MEGaPublicKey,
    ) -> ThresholdEcdsaResult<CommitmentOpening> {
        if recipient_index >= self.spec_len() {
            Err(ThresholdEcdsaError::InvalidCiphertext)
        } else {
            let q_k = order_of(private_key.secret.curve);
            let q_s = order_of(self.spec_curve());
            let shared = fmul(q_k, private_key.secret.value as int, self.spec_epk().value as int);
            let expected = commitment_eval_value(q_s, commitment.points_seq(), recipient_index);
            match (self, commitment) {
                (MEGaCiphertext::Single(c), PolynomialCommitment::Simple(_)) => {
                    let v = fsub(
                        q_s,
                        c.ctexts@[recipient_index].value as int,
                        mega_mask(
                            q_s,
                            shared,
                            public_key.point.value as int,
                            ad,
                            dealer_index,
                            recipient_index,
                            0,
                        ),
                    );
                    if v == expected {
                        Ok(
                            CommitmentOpening::Simple(
                                EccScalar { curve: self.spec_curve(), value: v as u64 },
                            ),
                        )
                    } else {
                        Err(ThresholdEcdsaError::InvalidCommitment)
                    }
                },
                (MEGaCiphertext::Pairs(c), PolynomialCommitment::Pedersen(_)) => {
                    let v = fsub(
                        q_s,
                        c.ctexts@[recipient_index].0.value as int,
                        mega_mask(
                            q_s,
                            shared,
                            public_key.point.value as int,
                            ad,
                            dealer_index,
                            recipient_index,
                            0,
                        ),
                    );
                    let m = fsub(
                        q_s,
                        c.ctexts@[recipient_index].1.value as int,
                        mega_mask(
                            q_s,
                            shared,
                            public_key.point.value as int,
                            ad,
                            dealer_index,
                            recipient_index,
                            1,
                        ),
                    );
                    if pedersen_value(q_s, v, m) == expected {
                        Ok(
                            CommitmentOpening::Pedersen(
                                EccScalar { curve: self.spec_curve(), value: v as u64 },
                                EccScalar { curve: self.spec_curve(), value: m as u64 },
                            ),
                        )
                    } else {
                        Err(ThresholdEcdsaError::InvalidCommitment)
                    }
                },
                _ => Err(ThresholdEcdsaError::UnexpectedCommitmentType),
            }
        }
    }

    /// Decrypt the receiver's entry and cross-check it against the
    /// commitment evaluated at the receiver's abscissa.
    pub fn decrypt_and_check(
        &self,
        commitment: &PolynomialCommitment,
        associated_data: &[u8],
        dealer_index: NodeIndex,
        recipient_index: NodeIndex,
        private_key: &MEGaPrivateKey,
        public_key: &MEGaPublicKey,
    ) -> (r: ThresholdEcdsaResult<CommitmentOpening>)
        requires
            self.wf(),
            commitment.wf(),
            private_key.wf(),
            public_key.wf(),
            private_key.secret.curve == self.spec_epk().curve,
            commitment.spec_curve() == self.spec_curve(),
        ensures
            r == self.decrypt_and_check_spec(
                *commitment,
                associated_data@,
                dealer_index as int,
                recipient_index as int,
                *private_key,
                *public_key,
            ),
    {
        let index = recipient_index as usize;
        if index >= self.len() {
            return Err(ThresholdEcdsaError::InvalidCiphertext);
        }
        let epk = match self {
            MEGaCiphertext::Single(c) => c.ephemeral_key,
            MEGaCiphertext::Pairs(c) => c.ephemeral_key,
        };
        let shared = epk.scalar_mul(&private_key.secret);
        match (self, commitment) {
            (MEGaCiphertext::Single(c), PolynomialCommitment::Simple(sc)) => {
                let q_s = c.ctexts[0].curve.order();
                let mask = mega_mask_exec(
                    q_s,
                    shared.value,
                    public_key.point.value,
                    associated_data,
                    dealer_index,
                    recipient_index as u64,
                    0,
                );
                let v = (c.ctexts[index].value + q_s - mask) % q_s;
                let expected = sc.evaluate_at(recipient_index);
                if v == expected.value {
                    Ok(CommitmentOpening::Simple(EccScalar { curve: c.ctexts[0].curve, value: v }))
                } else {
                    Err(ThresholdEcdsaError::InvalidCommitment)
                }
            },
            (MEGaCiphertext::Pairs(c), PolynomialCommitment::Pedersen(pc)) => {
                let q_s = c.ctexts[0].0.curve.order();
                let mask0 = mega_mask_exec(
                    q_s,
                    shared.value,
                    public_key.point.value,
                    associated_data,
                    dealer_index,
                    recipient_index as u64,
                    0,
                );
                let mask1 = mega_mask_exec(
                    q_s,
                    shared.value,
                    public_key.point.value,
                    associated_data,
                    dealer_index,
                    recipient_index as u64,
                    1,
                );
                let v = (c.ctexts[index].0.value + q_s - mask0) % q_s;
                let m = (c.ctexts[index].1.value + q_s - mask1) % q_s;
                let opened = EccPoint::pedersen(
                    &EccScalar { curve: c.ctexts[0].0.curve, value: v },
                    &EccScalar { curve: c.ctexts[0].0.curve, value: m },
                );
                let expected = pc.evaluate_at(recipient_index);
                if opened.value == expected.value {
                    Ok(
                        CommitmentOpening::Pedersen(
                            EccScalar { curve: c.ctexts[0].0.curve, value: v },
                            EccScalar { curve: c.ctexts[0].0.curve, value: m },
                        ),
                    )
                } else {
                    Err(ThresholdEcdsaError::InvalidCommitment)
                }
            },
            _ => Err(ThresholdEcdsaError::UnexpectedCommitmentType),
        }
    }
}

} // verus!
