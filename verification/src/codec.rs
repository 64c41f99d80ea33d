//! Canonical binary encoding of dealings.
//!
//! A dealing is encoded as a sequence of 64-bit little-endian words: the
//! ciphertext (shape tag, ephemeral key, binding tag, entry count and
//! entries), the commitment (kind tag, curve, point count and points), and
//! the optional proof.  The encoding is canonical: a byte string decodes to
//! at most one dealing, and decoding re-encodes to exactly the input, so the
//! round trip is the identity.  Any trailing data, out-of-range residue or
//! unknown tag makes the whole blob undecodable.

use vstd::prelude::*;
use vstd::bytes::{
    lemma_auto_spec_u64_to_from_le_bytes, spec_u64_from_le_bytes, spec_u64_to_le_bytes,
    u64_from_le_bytes, u64_to_le_bytes,
};
use vstd::slice::slice_subrange;

use crate::commitment::{PedersenCommitment, PolynomialCommitment, SimpleCommitment};
use crate::curve::{order_of, EccCurveType, EccPoint, EccScalar};
use crate::dealings::{IDkgDealingInternal, ZkProof};
use crate::mega::{MEGaCiphertext, MEGaCiphertextPair, MEGaCiphertextSingle};
use crate::seed::{absorb_one, absorb_one_exec};
use crate::zk::{ProofOfEqualOpenings, ProofOfProduct};
use crate::{ThresholdEcdsaSerializationError, ThresholdEcdsaSerializationResult};

verus! {

/// The mathematical content of a ciphertext: what the encoding determines.
pub enum MEGaCiphertextV {
    SingleV { ephemeral_key: EccPoint, pop: u64, ctexts: Seq<EccScalar> },
    PairsV { ephemeral_key: EccPoint, pop: u64, ctexts: Seq<(EccScalar, EccScalar)> },
}

/// The mathematical content of a commitment.
pub enum PolynomialCommitmentV {
    SimpleV { curve: EccCurveType, points: Seq<EccPoint> },
    PedersenV { curve: EccCurveType, points: Seq<EccPoint> },
}

/// The mathematical content of a dealing.
pub struct DealingV {
    pub ciphertext: MEGaCiphertextV,
    pub commitment: PolynomialCommitmentV,
    pub proof: Option<ZkProof>,
}

/// The content of a ciphertext value.
pub open spec fn ciphertext_model(c: MEGaCiphertext) -> MEGaCiphertextV {
    match c {
        MEGaCiphertext::Single(s) => MEGaCiphertextV::SingleV {
            ephemeral_key: s.ephemeral_key,
            pop: s.pop,
            ctexts: s.ctexts@,
        },
        MEGaCiphertext::Pairs(p) => MEGaCiphertextV::PairsV {
            ephemeral_key: p.ephemeral_key,
            pop: p.pop,
            ctexts: p.ctexts@,
        },
    }
}

/// The content of a commitment value.
pub open spec fn commitment_model(c: PolynomialCommitment) -> PolynomialCommitmentV {
    match c {
        PolynomialCommitment::Simple(s) => PolynomialCommitmentV::SimpleV {
            curve: s.curve,
            points: s.points@,
        },
        PolynomialCommitment::Pedersen(p) => PolynomialCommitmentV::PedersenV {
            curve: p.curve,
            points: p.points@,
        },
    }
}

/// The content of a dealing value: structural equality of dealings is
/// equality of their contents.
pub open spec fn dealing_model(d: IDkgDealingInternal) -> DealingV {
    DealingV {
        ciphertext: ciphertext_model(d.ciphertext),
        commitment: commitment_model(d.commitment),
        proof: d.proof,
    }
}

/// The word encoding a curve tag.
pub open spec fn curve_word(c: EccCurveType) -> u64 {
    match c {
        EccCurveType::K256 => 0u64,
        EccCurveType::P256 => 1u64,
    }
}

/// What the encoder accepts: nonempty vectors of reduced residues on one
/// curve, with lengths a receiver index can address.
pub open spec fn codec_wf(v: DealingV) -> bool {
    &&& match v.ciphertext {
        MEGaCiphertextV::SingleV { ephemeral_key, pop, ctexts } => {
            &&& ephemeral_key.wf()
            &&& 1 <= ctexts.len() < 0x1_0000_0000
            &&& forall|i: int|
                0 <= i < ctexts.len() ==> (#[trigger] ctexts[i]).wf() && ctexts[i].curve
                    == ctexts[0].curve
        },
        MEGaCiphertextV::PairsV { ephemeral_key, pop, ctexts } => {
            &&& ephemeral_key.wf()
            &&& 1 <= ctexts.len() < 0x1_0000_0000
            &&& forall|i: int|
                0 <= i < ctexts.len() ==> (#[trigger] ctexts[i]).0.wf() && ctexts[i].1.wf()
                    && ctexts[i].0.curve == ctexts[0].0.curve && ctexts[i].1.curve
                    == ctexts[0].0.curve
        },
    }
    &&& match v.commitment {
        PolynomialCommitmentV::SimpleV { curve, points } => {
            &&& 1 <= points.len() < 0x1_0000_0000
            &&& forall|i: int|
                0 <= i < points.len() ==> (#[trigger] points[i]).wf() && points[i].curve == curve
        },
        PolynomialCommitmentV::PedersenV { curve, points } => {
            &&& 1 <= points.len() < 0x1_0000_0000
            &&& forall|i: int|
                0 <= i < points.len() ==> (#[trigger] points[i]).wf() && points[i].curve == curve
        },
    }
    &&& match v.proof {
        None => true,
        Some(p) => p.wf(),
    }
}

/// Words of the ciphertext: shape tag, ephemeral key curve and residue,
/// binding tag, entry count, entry curve, then the entries (for pairs, all
/// first components, then all second components).
pub open spec fn ser_ciphertext(c: MEGaCiphertextV) -> Seq<u64> {
    match c {
        MEGaCiphertextV::SingleV { ephemeral_key, pop, ctexts } => seq![
            1u64,
            curve_word(ephemeral_key.curve),
            ephemeral_key.value,
            pop,
            ctexts.len() as u64,
            curve_word(ctexts[0].curve),
        ] + ctexts.map_values(|s: EccScalar| s.value),
        MEGaCiphertextV::PairsV { ephemeral_key, pop, ctexts } => seq![
            2u64,
            curve_word(ephemeral_key.curve),
            ephemeral_key.value,
            pop,
            ctexts.len() as u64,
            curve_word(ctexts[0].0.curve),
        ] + ctexts.map_values(|s: (EccScalar, EccScalar)| s.0.value) + ctexts.map_values(
            |s: (EccScalar, EccScalar)| s.1.value,
        ),
    }
}

/// Words of the commitment: kind tag, curve, point count, then the points.
pub open spec fn ser_commitment(c: PolynomialCommitmentV) -> Seq<u64> {
    match c {
        PolynomialCommitmentV::SimpleV { curve, points } => seq![
            1u64,
            curve_word(curve),
            points.len() as u64,
        ] + points.map_values(|p: EccPoint| p.value),
        PolynomialCommitmentV::PedersenV { curve, points } => seq![
            2u64,
            curve_word(curve),
            points.len() as u64,
        ] + points.map_values(|p: EccPoint| p.value),
    }
}

/// Words of the optional proof: a presence tag, then the proof's fields.
pub open spec fn ser_proof(p: Option<ZkProof>) -> Seq<u64> {
    match p {
        None => seq![0u64],
        Some(ZkProof::ProofOfMaskedResharing(e)) => seq![
            1u64,
            curve_word(e.curve),
            e.rand_commitment,
            e.response,
        ],
        Some(ZkProof::ProofOfProduct(e)) => seq![
            2u64,
            curve_word(e.curve),
            e.rand_commitment_value,
            e.rand_commitment_product,
            e.response_value,
            e.response_masking,
            e.response_product_masking,
        ],
    }
}

/// The words of a dealing, before the integrity word.
pub open spec fn ser_body(v: DealingV) -> Seq<u64> {
    ser_ciphertext(v.ciphertext) + ser_commitment(v.commitment) + ser_proof(v.proof)
}

/// Modulus of the integrity word (a prime below 2^32).
pub const CHECKSUM_MODULUS: u64 = 4294967291;

/// Domain tag of the integrity chain.
pub const CHECKSUM_DOMAIN: u64 = 5;

/// The integrity word of a word sequence: the hashing chain folded over
/// every word.  A single flipped byte anywhere in the encoding changes it,
/// because the flip's magnitude is a nonzero multiple of a power of 256 and
/// the modulus is an odd prime larger than any byte.
pub open spec fn words_checksum(ws: Seq<u64>) -> int
    decreases ws.len(),
{
    if ws.len() == 0 {
        CHECKSUM_DOMAIN as int
    } else {
        absorb_one(CHECKSUM_MODULUS as int, words_checksum(ws.drop_last()), ws.last() as int)
    }
}

/// All words of a dealing: the body, then its integrity word.
pub open spec fn ser_words(v: DealingV) -> Seq<u64> {
    ser_body(v) + seq![words_checksum(ser_body(v)) as u64]
}

/// The bytes of a word sequence, each word little-endian.
pub open spec fn words_to_bytes(ws: Seq<u64>) -> Seq<u8>
    decreases ws.len(),
{
    if ws.len() == 0 {
        Seq::empty()
    } else {
        words_to_bytes(ws.drop_last()) + spec_u64_to_le_bytes(ws.last())
    }
}

/// The words of a byte sequence whose length is a multiple of eight.
pub open spec fn bytes_to_words(bs: Seq<u8>) -> Seq<u64> {
    Seq::new(bs.len() / 8, |i: int| spec_u64_from_le_bytes(bs.subrange(8 * i, 8 * i + 8)))
}

/// The byte encoding of a dealing's content.
pub open spec fn ser_bytes(v: DealingV) -> Seq<u8> {
    words_to_bytes(ser_words(v))
}

/// Word encoding and byte packing invert each other.
pub proof fn lemma_words_bytes_roundtrip(ws: Seq<u64>)
    ensures
        words_to_bytes(ws).len() == 8 * ws.len(),
        bytes_to_words(words_to_bytes(ws)) == ws,
    decreases ws.len(),
{
    lemma_auto_spec_u64_to_from_le_bytes();
    if ws.len() == 0 {
        assert(bytes_to_words(words_to_bytes(ws)) =~= ws);
    } else {
        let prefix = ws.drop_last();
        lemma_words_bytes_roundtrip(prefix);
        let bs = words_to_bytes(ws);
        let pb = words_to_bytes(prefix);
        assert(bs.len() == 8 * ws.len());
        assert forall|i: int| 0 <= i < ws.len() implies bytes_to_words(bs)[i] == ws[i] by {
            if i < ws.len() - 1 {
                assert(bs.subrange(8 * i, 8 * i + 8) =~= pb.subrange(8 * i, 8 * i + 8));
                assert(bytes_to_words(pb)[i] == prefix[i]);
            } else {
                assert(bs.subrange(8 * i, 8 * i + 8) =~= spec_u64_to_le_bytes(ws.last()));
            }
        }
        assert(bytes_to_words(words_to_bytes(ws)) =~= ws);
    }
}

/// Every word in the given range is a reduced residue of the curve.
pub open spec fn words_below(ws: Seq<u64>, start: int, count: int, q: int) -> bool {
    forall|j: int| 0 <= j < count ==> (#[trigger] ws[start + j]) < q
}

/// The scalars read from a word range.
pub open spec fn scalars_at(ws: Seq<u64>, start: int, count: int, curve: EccCurveType) -> Seq<
    EccScalar,
> {
    Seq::new(count as nat, |i: int| EccScalar { curve, value: ws[start + i] })
}

/// The scalar pairs read from two adjacent word ranges.
pub open spec fn scalar_pairs_at(ws: Seq<u64>, start: int, count: int, curve: EccCurveType) -> Seq<
    (EccScalar, EccScalar),
> {
    Seq::new(
        count as nat,
        |i: int|
            (
                EccScalar { curve, value: ws[start + i] },
                EccScalar { curve, value: ws[start + count + i] },
            ),
    )
}

/// The points read from a word range.
pub open spec fn points_at(ws: Seq<u64>, start: int, count: int, curve: EccCurveType) -> Seq<
    EccPoint,
> {
    Seq::new(count as nat, |i: int| EccPoint { curve, value: ws[start + i] })
}

/// The curve of a tag word, if the tag is known.
pub open spec fn curve_of_word(w: u64) -> Option<EccCurveType> {
    if w == 0 {
        Some(EccCurveType::K256)
    } else if w == 1 {
        Some(EccCurveType::P256)
    } else {
        None
    }
}

/// The decoded ciphertext at the front of the words, with the position of
/// the next stage.
pub open spec fn deser_ciphertext_at(ws: Seq<u64>) -> Option<(MEGaCiphertextV, int)> {
    if ws.len() < 6 {
        None
    } else if !(ws[0] == 1 || ws[0] == 2) {
        None
    } else if curve_of_word(ws[1]) is None {
        None
    } else if ws[2] >= order_of(curve_of_word(ws[1])->0) {
        None
    } else if !(1 <= ws[4] < 0x1_0000_0000) {
        None
    } else if curve_of_word(ws[5]) is None {
        None
    } else {
        let key_curve = curve_of_word(ws[1])->0;
        let epk = EccPoint { curve: key_curve, value: ws[2] };
        let pop = ws[3];
        let n = ws[4] as int;
        let sig_curve = curve_of_word(ws[5])->0;
        let q_s = order_of(sig_curve);
        let entry_words: int = if ws[0] == 1 {
            n
        } else {
            2 * n
        };
        if ws.len() < 6 + entry_words {
            None
        } else if !words_below(ws, 6, entry_words, q_s) {
            None
        } else if ws[0] == 1 {
            Some(
                (
                    MEGaCiphertextV::SingleV {
                        ephemeral_key: epk,
                        pop,
                        ctexts: scalars_at(ws, 6, n, sig_curve),
                    },
                    6 + entry_words,
                ),
            )
        } else {
            Some(
                (
                    MEGaCiphertextV::PairsV {
                        ephemeral_key: epk,
                        pop,
                        ctexts: scalar_pairs_at(ws, 6, n, sig_curve),
                    },
                    6 + entry_words,
                ),
            )
        }
    }
}

/// The decoded commitment at position `i0`, with the position of the next
/// stage.
pub open spec fn deser_commitment_at(ws: Seq<u64>, i0: int) -> Option<(
    PolynomialCommitmentV,
    int,
)> {
    if ws.len() < i0 + 3 {
        None
    } else if !(ws[i0] == 1 || ws[i0] == 2) {
        None
    } else if curve_of_word(ws[i0 + 1]) is None {
        None
    } else if !(1 <= ws[i0 + 2] < 0x1_0000_0000) {
        None
    } else {
        let com_curve = curve_of_word(ws[i0 + 1])->0;
        let m = ws[i0 + 2] as int;
        if ws.len() < i0 + 3 + m {
            None
        } else if !words_below(ws, i0 + 3, m, order_of(com_curve)) {
            None
        } else {
            let points = points_at(ws, i0 + 3, m, com_curve);
            if ws[i0] == 1 {
                Some((PolynomialCommitmentV::SimpleV { curve: com_curve, points }, i0 + 3 + m))
            } else {
                Some((PolynomialCommitmentV::PedersenV { curve: com_curve, points }, i0 + 3 + m))
            }
        }
    }
}

/// The decoded optional proof at position `i1`, with the end position.
pub open spec fn deser_proof_at(ws: Seq<u64>, i1: int) -> Option<(Option<ZkProof>, int)> {
    if ws.len() < i1 + 1 {
        None
    } else if ws[i1] == 0 {
        Some((None, i1 + 1))
    } else if ws[i1] == 1 {
        if ws.len() >= i1 + 4 && curve_of_word(ws[i1 + 1]) is Some && ws[i1 + 2] < order_of(
            curve_of_word(ws[i1 + 1])->0,
        ) && ws[i1 + 3] < order_of(curve_of_word(ws[i1 + 1])->0) {
            Some(
                (
                    Some(
                        ZkProof::ProofOfMaskedResharing(
                            ProofOfEqualOpenings {
                                curve: curve_of_word(ws[i1 + 1])->0,
                                rand_commitment: ws[i1 + 2],
                                response: ws[i1 + 3],
                            },
                        ),
                    ),
                    i1 + 4,
                ),
            )
        } else {
            None
        }
    } else if ws[i1] == 2 {
        if ws.len() >= i1 + 7 && curve_of_word(ws[i1 + 1]) is Some && words_below(
            ws,
            i1 + 2,
            5,
            order_of(curve_of_word(ws[i1 + 1])->0),
        ) {
            Some(
                (
                    Some(
                        ZkProof::ProofOfProduct(
                            ProofOfProduct {
                                curve: curve_of_word(ws[i1 + 1])->0,
                                rand_commitment_value: ws[i1 + 2],
                                rand_commitment_product: ws[i1 + 3],
                                response_value: ws[i1 + 4],
                                response_masking: ws[i1 + 5],
                                response_product_masking: ws[i1 + 6],
                            },
                        ),
                    ),
                    i1 + 7,
                ),
            )
        } else {
            None
        }
    } else {
        None
    }
}

/// The decoded dealing content of the words before the integrity word.
pub open spec fn deser_body(ws: Seq<u64>) -> Option<DealingV> {
    match deser_ciphertext_at(ws) {
        None => None,
        Some((ciphertext, i0)) => match deser_commitment_at(ws, i0) {
            None => None,
            Some((commitment, i1)) => match deser_proof_at(ws, i1) {
                None => None,
                Some((proof, end)) => if end == ws.len() {
                    Some(DealingV { ciphertext, commitment, proof })
                } else {
                    None
                },
            },
        },
    }
}

/// The decoded dealing content of a word sequence: the integrity word must
/// match, and the body must be a well-formed encoding.
pub open spec fn deser_words(ws: Seq<u64>) -> Option<DealingV> {
    if ws.len() < 1 {
        None
    } else if ws.last() as int != words_checksum(ws.drop_last()) {
        None
    } else {
        deser_body(ws.drop_last())
    }
}

/// The decoded dealing content of a byte string.
pub open spec fn deser_bytes(bs: Seq<u8>) -> Option<DealingV> {
    if bs.len() % 8 == 0 {
        deser_words(bytes_to_words(bs))
    } else {
        None
    }
}

/// The integrity word is a reduced residue.
pub proof fn lemma_checksum_bound(ws: Seq<u64>)
    ensures
        0 <= words_checksum(ws) < CHECKSUM_MODULUS,
{
    if ws.len() == 0 {
    }
}

/// Encoding then decoding a ciphertext yields it back, whatever follows it.
pub proof fn lemma_deser_ser_ciphertext(c: MEGaCiphertextV, rest: Seq<u64>)
    requires
        match c {
            MEGaCiphertextV::SingleV { ephemeral_key, pop, ctexts } => {
                &&& ephemeral_key.wf()
                &&& 1 <= ctexts.len() < 0x1_0000_0000
                &&& forall|i: int|
                    0 <= i < ctexts.len() ==> (#[trigger] ctexts[i]).wf() && ctexts[i].curve
                        == ctexts[0].curve
            },
            MEGaCiphertextV::PairsV { ephemeral_key, pop, ctexts } => {
                &&& ephemeral_key.wf()
                &&& 1 <= ctexts.len() < 0x1_0000_0000
                &&& forall|i: int|
                    0 <= i < ctexts.len() ==> (#[trigger] ctexts[i]).0.wf() && ctexts[i].1.wf()
                        && ctexts[i].0.curve == ctexts[0].0.curve && ctexts[i].1.curve
                        == ctexts[0].0.curve
            },
        },
    ensures
        deser_ciphertext_at(ser_ciphertext(c) + rest) == Some(
            (c, ser_ciphertext(c).len() as int),
        ),
{
    let cw = ser_ciphertext(c);
    let ws = cw + rest;
    assert forall|j: int| 0 <= j < cw.len() implies ws[j] == cw[j] by {}
    match c {
        MEGaCiphertextV::SingleV { ephemeral_key, pop, ctexts } => {
            let n = ctexts.len() as int;
            assert(cw.len() == 6 + n);
            assert(words_below(ws, 6, n, order_of(ctexts[0].curve)));
            assert(scalars_at(ws, 6, n, ctexts[0].curve) =~= ctexts);
        },
        MEGaCiphertextV::PairsV { ephemeral_key, pop, ctexts } => {
            let n = ctexts.len() as int;
            assert(cw.len() == 6 + 2 * n);
            assert(words_below(ws, 6, 2 * n, order_of(ctexts[0].0.curve))) by {
                assert forall|j: int| 0 <= j < 2 * n implies (#[trigger] ws[6 + j]) < order_of(
                    ctexts[0].0.curve,
                ) by {
                    if j < n {
                        assert(ws[6 + j] == ctexts[j].0.value);
                    } else {
                        assert(ws[6 + j] == ctexts[j - n].1.value);
                    }
                }
            }
            assert(scalar_pairs_at(ws, 6, n, ctexts[0].0.curve) =~= ctexts);
        },
    }
}

/// Encoding then decoding a commitment yields it back, whatever stands
/// around it.
pub proof fn lemma_deser_ser_commitment(
    cm: PolynomialCommitmentV,
    prefix: Seq<u64>,
    rest: Seq<u64>,
)
    requires
        match cm {
            PolynomialCommitmentV::SimpleV { curve, points } => {
                &&& 1 <= points.len() < 0x1_0000_0000
                &&& forall|i: int|
                    0 <= i < points.len() ==> (#[trigger] points[i]).wf() && points[i].curve
                        == curve
            },
            PolynomialCommitmentV::PedersenV { curve, points } => {
                &&& 1 <= points.len() < 0x1_0000_0000
                &&& forall|i: int|
                    0 <= i < points.len() ==> (#[trigger] points[i]).wf() && points[i].curve
                        == curve
            },
        },
    ensures
        deser_commitment_at(prefix + ser_commitment(cm) + rest, prefix.len() as int) == Some(
            (cm, (prefix.len() + ser_commitment(cm).len()) as int),
        ),
{
    let mw = ser_commitment(cm);
    let ws = prefix + mw + rest;
    let i0 = prefix.len() as int;
    assert forall|j: int| 0 <= j < mw.len() implies ws[i0 + j] == mw[j] by {}
    match cm {
        PolynomialCommitmentV::SimpleV { curve, points } => {
            let m = points.len() as int;
            assert(mw.len() == 3 + m);
            assert(words_below(ws, i0 + 3, m, order_of(curve)));
            assert(points_at(ws, i0 + 3, m, curve) =~= points);
        },
        PolynomialCommitmentV::PedersenV { curve, points } => {
            let m = points.len() as int;
            assert(mw.len() == 3 + m);
            assert(words_below(ws, i0 + 3, m, order_of(curve)));
            assert(points_at(ws, i0 + 3, m, curve) =~= points);
        },
    }
}

/// Encoding then decoding an optional proof yields it back.
pub proof fn lemma_deser_ser_proof(p: Option<ZkProof>, prefix: Seq<u64>)
    requires
        match p {
            None => true,
            Some(e) => e.wf(),
        },
    ensures
        deser_proof_at(prefix + ser_proof(p), prefix.len() as int) == Some(
            (p, (prefix + ser_proof(p)).len() as int),
        ),
{
    let pw = ser_proof(p);
    let ws = prefix + pw;
    let i1 = prefix.len() as int;
    assert forall|j: int| 0 <= j < pw.len() implies ws[i1 + j] == pw[j] by {}
    match p {
        None => {},
        Some(ZkProof::ProofOfMaskedResharing(e)) => {},
        Some(ZkProof::ProofOfProduct(e)) => {
            assert(words_below(ws, i1 + 2, 5, order_of(e.curve)));
        },
    }
}

/// Round-trip law at the word level, body part: decoding an encoding's body
/// yields exactly the encoded content.
pub proof fn lemma_deser_ser_body(v: DealingV)
    requires
        codec_wf(v),
    ensures
        deser_body(ser_body(v)) == Some(v),
{
    let cw = ser_ciphertext(v.ciphertext);
    let mw = ser_commitment(v.commitment);
    let pw = ser_proof(v.proof);
    let ws = ser_body(v);
    lemma_deser_ser_ciphertext(v.ciphertext, mw + pw);
    assert(ws =~= cw + (mw + pw));
    lemma_deser_ser_commitment(v.commitment, cw, pw);
    assert(ws =~= cw + mw + pw);
    lemma_deser_ser_proof(v.proof, cw + mw);
    assert(ws =~= (cw + mw) + pw);
}


/// Round-trip law: decoding the byte encoding of any well-formed dealing
/// content yields exactly that content, so `deserialize` after `serialize`
/// is the identity on dealings.
pub proof fn lemma_deser_ser_words(v: DealingV)
    requires
        codec_wf(v),
    ensures
        deser_words(ser_words(v)) == Some(v),
{
    let body = ser_body(v);
    let ws = ser_words(v);
    lemma_checksum_bound(body);
    assert(ws.drop_last() =~= body);
    assert(ws.last() == words_checksum(body) as u64);
    lemma_deser_ser_body(v);
}

/// Round-trip law: decoding the byte encoding of any well-formed dealing
/// content yields exactly that content, so deserializing a serialized
/// dealing is the identity.
pub proof fn lemma_round_trip(v: DealingV)
    requires
        codec_wf(v),
    ensures
        deser_bytes(ser_bytes(v)) == Some(v),
{
    lemma_words_bytes_roundtrip(ser_words(v));
    lemma_deser_ser_words(v);
}


/// The word of a curve tag.
fn curve_to_word(c: EccCurveType) -> (r: u64)
    ensures
        r == curve_word(c),
{
    match c {
        EccCurveType::K256 => 0u64,
        EccCurveType::P256 => 1u64,
    }
}

/// The curve of a tag word, if the tag is known.
fn curve_from_word(w: u64) -> (r: Option<EccCurveType>)
    ensures
        r == curve_of_word(w),
{
    if w == 0 {
        Some(EccCurveType::K256)
    } else if w == 1 {
        Some(EccCurveType::P256)
    } else {
        None
    }
}

/// Fold the integrity chain over the first `count` words.
fn checksum_words(words: &Vec<u64>, count: usize) -> (r: u64)
    requires
        count <= words@.len(),
    ensures
        r == words_checksum(words@.subrange(0, count as int)),
        r < CHECKSUM_MODULUS,
{
    let mut cs: u64 = CHECKSUM_DOMAIN;
    let mut j: usize = 0;
    while j < count
        invariant
            j <= count,
            count <= words@.len(),
            cs == words_checksum(words@.subrange(0, j as int)),
            cs < CHECKSUM_MODULUS,
        decreases count - j,
    {
        cs = absorb_one_exec(CHECKSUM_MODULUS, cs, words[j]);
        proof {
            let prefix = words@.subrange(0, j + 1);
            assert(prefix.drop_last() =~= words@.subrange(0, j as int));
            assert(prefix.last() == words@[j as int]);
        }
        j = j + 1;
    }
    cs
}

/// Read `count` scalar residues of the given curve.
fn parse_scalars(words: &Vec<u64>, start: usize, count: usize, curve: EccCurveType) -> (r: Option<
    Vec<EccScalar>,
>)
    requires
        start + count <= words@.len(),
    ensures
        match r {
            Some(v) => words_below(words@, start as int, count as int, order_of(curve)) && v@
                == scalars_at(words@, start as int, count as int, curve),
            None => !words_below(words@, start as int, count as int, order_of(curve)),
        },
{
    let q = curve.order();
    let total = words.len();
    let mut out: Vec<EccScalar> = Vec::new();
    let mut j: usize = 0;
    while j < count
        invariant
            j <= count,
            start + count <= words@.len(),
            total == words@.len(),
            q == order_of(curve),
            out@.len() == j,
            forall|k: int| 0 <= k < j ==> (#[trigger] words@[start + k]) < q,
            forall|k: int|
                0 <= k < j ==> (#[trigger] out@[k]) == (EccScalar {
                    curve,
                    value: words@[start + k],
                }),
        decreases count - j,
    {
        let w = words[start + j];
        if w >= q {
            return None;
        }
        out.push(EccScalar { curve, value: w });
        j = j + 1;
    }
    proof {
        assert(out@ =~= scalars_at(words@, start as int, count as int, curve));
    }
    Some(out)
}

/// Read `count` scalar pairs: all first components, then all seconds.
fn parse_scalar_pairs(words: &Vec<u64>, start: usize, count: usize, curve: EccCurveType) -> (r:
    Option<Vec<(EccScalar, EccScalar)>>)
    requires
        start + count + count <= words@.len(),
    ensures
        match r {
            Some(v) => words_below(words@, start as int, 2 * count as int, order_of(curve)) && v@
                == scalar_pairs_at(words@, start as int, count as int, curve),
            None => !words_below(words@, start as int, 2 * count as int, order_of(curve)),
        },
{
    let q = curve.order();
    let total = words.len();
    let mut out: Vec<(EccScalar, EccScalar)> = Vec::new();
    let mut j: usize = 0;
    while j < count
        invariant
            j <= count,
            start + count + count <= words@.len(),
            total == words@.len(),
            q == order_of(curve),
            out@.len() == j,
            forall|k: int| 0 <= k < j ==> (#[trigger] words@[start + k]) < q,
            forall|k: int| 0 <= k < j ==> (#[trigger] words@[start + count + k]) < q,
            forall|k: int|
                0 <= k < j ==> (#[trigger] out@[k]) == (
                    EccScalar { curve, value: words@[start + k] },
                    EccScalar { curve, value: words@[start + count + k] },
                ),
        decreases count - j,
    {
        let w0 = words[start + j];
        let w1 = words[start + count + j];
        if w0 >= q || w1 >= q {
            proof {
                if w0 >= q {
                    assert(words@[start + j] >= q);
                } else {
                    assert(0 <= count + j < 2 * count);
                    assert(words@[start + (count + j)] >= q);
                }
            }
            return None;
        }
        out.push((EccScalar { curve, value: w0 }, EccScalar { curve, value: w1 }));
        j = j + 1;
    }
    proof {
        assert(out@ =~= scalar_pairs_at(words@, start as int, count as int, curve));
        assert forall|k: int| 0 <= k < 2 * count implies (#[trigger] words@[start + k]) < q by {
            if k < count {
                assert(words@[start + k] < q);
            } else {
                assert(words@[start + count + (k - count)] < q);
                assert(start + k == start + count + (k - count));
            }
        }
    }
    Some(out)
}

/// Read `count` group elements of the given curve.
fn parse_points(words: &Vec<u64>, start: usize, count: usize, curve: EccCurveType) -> (r: Option<
    Vec<EccPoint>,
>)
    requires
        start + count <= words@.len(),
    ensures
        match r {
            Some(v) => words_below(words@, start as int, count as int, order_of(curve)) && v@
                == points_at(words@, start as int, count as int, curve),
            None => !words_below(words@, start as int, count as int, order_of(curve)),
        },
{
    let q = curve.order();
    let total = words.len();
    let mut out: Vec<EccPoint> = Vec::new();
    let mut j: usize = 0;
    while j < count
        invariant
            j <= count,
            start + count <= words@.len(),
            total == words@.len(),
            q == order_of(curve),
            out@.len() == j,
            forall|k: int| 0 <= k < j ==> (#[trigger] words@[start + k]) < q,
            forall|k: int|
                0 <= k < j ==> (#[trigger] out@[k]) == (EccPoint {
                    curve,
                    value: words@[start + k],
                }),
        decreases count - j,
    {
        let w = words[start + j];
        if w >= q {
            return None;
        }
        out.push(EccPoint { curve, value: w });
        j = j + 1;
    }
    proof {
        assert(out@ =~= points_at(words@, start as int, count as int, curve));
    }
    Some(out)
}


impl IDkgDealingInternal {
    /// Encode the dealing as its canonical byte string.
    pub fn serialize(&self) -> (r: ThresholdEcdsaSerializationResult<Vec<u8>>)
        requires
            self.wf(),
            self.ciphertext.spec_len() < 0x1_0000_0000,
            self.commitment.points_seq().len() < 0x1_0000_0000,
        ensures
            r is Ok,
            r matches Ok(bytes) ==> bytes@ == ser_bytes(dealing_model(*self)),
            codec_wf(dealing_model(*self)),
    {
        let ghost model = dealing_model(*self);
        let mut words = ciphertext_words(&self.ciphertext);
        let mut commitment_part = commitment_words(&self.commitment);
        let mut proof_part = proof_words(&self.proof);
        words.append(&mut commitment_part);
        words.append(&mut proof_part);
        proof {
            assert(words@ =~= ser_body(model));
        }
        let total = words.len();
        let checksum = checksum_words(&words, total);
        proof {
            assert(words@.subrange(0, total as int) =~= words@);
        }
        words.push(checksum);
        proof {
            assert(words@ =~= ser_words(model));
        }
        let word_count = words.len();
        let mut out: Vec<u8> = Vec::new();
        let mut i: usize = 0;
        while i < word_count
            invariant
                i <= word_count,
                word_count == words@.len(),
                out@ == words_to_bytes(words@.subrange(0, i as int)),
            decreases word_count - i,
        {
            let mut chunk = u64_to_le_bytes(words[i]);
            out.append(&mut chunk);
            proof {
                let prefix = words@.subrange(0, i + 1);
                assert(prefix.drop_last() =~= words@.subrange(0, i as int));
                assert(prefix.last() == words@[i as int]);
            }
            i = i + 1;
        }
        proof {
            assert(words@.subrange(0, word_count as int) =~= words@);
        }
        Ok(out)
    }

    /// Decode a dealing from its canonical byte string; any malformed,
    /// tampered or trailing data rejects the whole blob.
    pub fn deserialize(bytes: &[u8]) -> (r: ThresholdEcdsaSerializationResult<IDkgDealingInternal>)
        ensures
            r is Ok <==> deser_bytes(bytes@) is Some,
            r matches Ok(d) ==> Some(dealing_model(d)) == deser_bytes(bytes@) && d.wf()
                && d.ciphertext.spec_len() < 0x1_0000_0000 && d.commitment.points_seq().len()
                < 0x1_0000_0000,
    {
        let blen = bytes.len();
        if blen % 8 != 0 {
            return Err(ThresholdEcdsaSerializationError);
        }
        let word_count = blen / 8;
        proof {
            vstd::arithmetic::div_mod::lemma_fundamental_div_mod(blen as int, 8);
        }
        let mut words: Vec<u64> = Vec::new();
        let mut i: usize = 0;
        while i < word_count
            invariant
                i <= word_count,
                blen == bytes@.len(),
                blen % 8 == 0,
                word_count == blen / 8,
                blen == 8 * word_count,
                words@.len() == i,
                forall|k: int|
                    0 <= k < i ==> (#[trigger] words@[k]) == spec_u64_from_le_bytes(
                        bytes@.subrange(8 * k, 8 * k + 8),
                    ),
            decreases word_count - i,
        {
            let chunk = slice_subrange(bytes, 8 * i, 8 * i + 8);
            let w = u64_from_le_bytes(chunk);
            words.push(w);
            i = i + 1;
        }
        proof {
            assert(words@ =~= bytes_to_words(bytes@));
        }
        let ghost full = bytes_to_words(bytes@);
        if words.len() < 1 {
            return Err(ThresholdEcdsaSerializationError);
        }
        let body_len = words.len() - 1;
        let checksum = checksum_words(&words, body_len);
        let stored = words[body_len];
        proof {
            assert(words@.subrange(0, body_len as int) =~= full.drop_last());
            assert(words@[body_len as int] == full.last());
        }
        if stored != checksum {
            return Err(ThresholdEcdsaSerializationError);
        }
        let _last = words.pop();
        proof {
            assert(words@ =~= full.drop_last());
        }
        let (ciphertext, i0) = match parse_ciphertext_stage(&words) {
            Some(p) => p,
            None => {
                return Err(ThresholdEcdsaSerializationError);
            },
        };
        let (commitment, i1) = match parse_commitment_stage(&words, i0) {
            Some(p) => p,
            None => {
                return Err(ThresholdEcdsaSerializationError);
            },
        };
        let (proof_value, end) = match parse_proof_stage(&words, i1) {
            Some(p) => p,
            None => {
                return Err(ThresholdEcdsaSerializationError);
            },
        };
        if end != words.len() {
            return Err(ThresholdEcdsaSerializationError);
        }
        let dealing = IDkgDealingInternal { ciphertext, commitment, proof: proof_value };
        Ok(dealing)
    }
}

/// Read the ciphertext at the front of the body words, realizing
/// [`deser_ciphertext_at`].
fn parse_ciphertext_stage(words: &Vec<u64>) -> (r: Option<(MEGaCiphertext, usize)>)
    ensures
        match r {
            Some((c, i0)) => deser_ciphertext_at(words@) == Some(
                (ciphertext_model(c), i0 as int),
            ) && c.wf() && c.spec_len() < 0x1_0000_0000 && i0 <= words@.len(),
            None => deser_ciphertext_at(words@) is None,
        },
{
    if words.len() < 6 {
        return None;
    }
    let tag_c = words[0];
    if !(tag_c == 1 || tag_c == 2) {
        return None;
    }
    let key_curve = match curve_from_word(words[1]) {
        Some(c) => c,
        None => {
            return None;
        },
    };
    if words[2] >= key_curve.order() {
        return None;
    }
    let n_word = words[4];
    if !(1 <= n_word && n_word < 0x1_0000_0000) {
        return None;
    }
    let sig_curve = match curve_from_word(words[5]) {
        Some(c) => c,
        None => {
            return None;
        },
    };
    let entry_words: u64 = if tag_c == 1 {
        n_word
    } else {
        2 * n_word
    };
    if ((words.len() - 6) as u64) < entry_words {
        return None;
    }
    let n = n_word as usize;
    let epk = EccPoint { curve: key_curve, value: words[2] };
    let pop = words[3];
    if tag_c == 1 {
        match parse_scalars(words, 6, n, sig_curve) {
            Some(ctexts) => {
                proof {
                    let ct = scalars_at(words@, 6, n_word as int, sig_curve);
                    assert forall|i: int| 0 <= i < ct.len() implies (#[trigger] ct[i]).wf()
                        && ct[i].curve == ct[0].curve by {
                        assert(words@[6 + i] < order_of(sig_curve));
                    }
                }
                Some(
                    (
                        MEGaCiphertext::Single(
                            MEGaCiphertextSingle { ephemeral_key: epk, pop, ctexts },
                        ),
                        6 + n,
                    ),
                )
            },
            None => None,
        }
    } else {
        match parse_scalar_pairs(words, 6, n, sig_curve) {
            Some(ctexts) => {
                proof {
                    let ct = scalar_pairs_at(words@, 6, n_word as int, sig_curve);
                    assert forall|i: int| 0 <= i < ct.len() implies (#[trigger] ct[i]).0.wf()
                        && ct[i].1.wf() && ct[i].0.curve == ct[0].0.curve && ct[i].1.curve
                        == ct[0].0.curve by {
                        assert(words@[6 + i] < order_of(sig_curve));
                        assert(0 <= n_word as int + i < 2 * n_word as int);
                        assert(words@[6 + (n_word as int + i)] < order_of(sig_curve));
                    }
                }
                Some(
                    (
                        MEGaCiphertext::Pairs(
                            MEGaCiphertextPair { ephemeral_key: epk, pop, ctexts },
                        ),
                        6 + n + n,
                    ),
                )
            },
            None => None,
        }
    }
}

/// Read the commitment at position `i0` of the body words, realizing
/// [`deser_commitment_at`].
fn parse_commitment_stage(words: &Vec<u64>, i0: usize) -> (r: Option<(PolynomialCommitment, usize)>)
    requires
        i0 <= words@.len(),
    ensures
        match r {
            Some((c, i1)) => deser_commitment_at(words@, i0 as int) == Some(
                (commitment_model(c), i1 as int),
            ) && c.wf() && c.points_seq().len() < 0x1_0000_0000 && i1 <= words@.len(),
            None => deser_commitment_at(words@, i0 as int) is None,
        },
{
    if words.len() - i0 < 3 {
        return None;
    }
    let tag_m = words[i0];
    if !(tag_m == 1 || tag_m == 2) {
        return None;
    }
    let com_curve = match curve_from_word(words[i0 + 1]) {
        Some(c) => c,
        None => {
            return None;
        },
    };
    let m_word = words[i0 + 2];
    if !(1 <= m_word && m_word < 0x1_0000_0000) {
        return None;
    }
    if ((words.len() - i0 - 3) as u64) < m_word {
        return None;
    }
    let m = m_word as usize;
    match parse_points(words, i0 + 3, m, com_curve) {
        Some(points) => {
            proof {
                let pt = points_at(words@, i0 + 3, m_word as int, com_curve);
                assert forall|i: int| 0 <= i < pt.len() implies (#[trigger] pt[i]).wf()
                    && pt[i].curve == com_curve by {
                    assert(words@[i0 + 3 + i] < order_of(com_curve));
                }
            }
            if tag_m == 1 {
                Some(
                    (
                        PolynomialCommitment::Simple(
                            SimpleCommitment { curve: com_curve, points },
                        ),
                        i0 + 3 + m,
                    ),
                )
            } else {
                Some(
                    (
                        PolynomialCommitment::Pedersen(
                            PedersenCommitment { curve: com_curve, points },
                        ),
                        i0 + 3 + m,
                    ),
                )
            }
        },
        None => None,
    }
}

/// Read the optional proof at position `i1` of the body words, realizing
/// [`deser_proof_at`].
fn parse_proof_stage(words: &Vec<u64>, i1: usize) -> (r: Option<(Option<ZkProof>, usize)>)
    requires
        i1 <= words@.len(),
    ensures
        match r {
            Some((p, end)) => deser_proof_at(words@, i1 as int) == Some((p, end as int)) && match p {
                Some(e) => e.wf(),
                None => true,
            } && end <= words@.len(),
            None => deser_proof_at(words@, i1 as int) is None,
        },
{
    if words.len() - i1 < 1 {
        return None;
    }
    let tag_p = words[i1];
    if tag_p == 0 {
        return Some((None, i1 + 1));
    }
    if tag_p == 1 {
        if words.len() - i1 < 4 {
            return None;
        }
        let p_curve = match curve_from_word(words[i1 + 1]) {
            Some(c) => c,
            None => {
                return None;
            },
        };
        let q_p = p_curve.order();
        if words[i1 + 2] >= q_p || words[i1 + 3] >= q_p {
            return None;
        }
        return Some(
            (
                Some(
                    ZkProof::ProofOfMaskedResharing(
                        ProofOfEqualOpenings {
                            curve: p_curve,
                            rand_commitment: words[i1 + 2],
                            response: words[i1 + 3],
                        },
                    ),
                ),
                i1 + 4,
            ),
        );
    }
    if tag_p == 2 {
        if words.len() - i1 < 7 {
            return None;
        }
        let p_curve = match curve_from_word(words[i1 + 1]) {
            Some(c) => c,
            None => {
                return None;
            },
        };
        let q_p = p_curve.order();
        if words[i1 + 2] >= q_p || words[i1 + 3] >= q_p || words[i1 + 4] >= q_p || words[i1 + 5]
            >= q_p || words[i1 + 6] >= q_p {
            proof {
                if words@[i1 + 2] >= q_p {
                    assert(words@[i1 as int + 2 + 0] >= q_p);
                } else if words@[i1 + 3] >= q_p {
                    assert(words@[i1 as int + 2 + 1] >= q_p);
                } else if words@[i1 + 4] >= q_p {
                    assert(words@[i1 as int + 2 + 2] >= q_p);
                } else if words@[i1 + 5] >= q_p {
                    assert(words@[i1 as int + 2 + 3] >= q_p);
                } else {
                    assert(words@[i1 as int + 2 + 4] >= q_p);
                }
            }
            return None;
        }
        proof {
            assert forall|k: int| 0 <= k < 5 implies (#[trigger] words@[i1 + 2 + k]) < q_p by {
                if k == 0 {
                    assert(words@[i1 as int + 2] < q_p);
                } else if k == 1 {
                    assert(words@[i1 as int + 3] < q_p);
                } else if k == 2 {
                    assert(words@[i1 as int + 4] < q_p);
                } else if k == 3 {
                    assert(words@[i1 as int + 5] < q_p);
                } else {
                    assert(words@[i1 as int + 6] < q_p);
                }
            }
        }
        return Some(
            (
                Some(
                    ZkProof::ProofOfProduct(
                        ProofOfProduct {
                            curve: p_curve,
                            rand_commitment_value: words[i1 + 2],
                            rand_commitment_product: words[i1 + 3],
                            response_value: words[i1 + 4],
                            response_masking: words[i1 + 5],
                            response_product_masking: words[i1 + 6],
                        },
                    ),
                ),
                i1 + 7,
            ),
        );
    }
    None
}


/// The words of a ciphertext.
fn ciphertext_words(c: &MEGaCiphertext) -> (r: Vec<u64>)
    requires
        c.wf(),
        c.spec_len() < 0x1_0000_0000,
    ensures
        r@ == ser_ciphertext(ciphertext_model(*c)),
{
    let mut words: Vec<u64> = Vec::new();
    match c {
        MEGaCiphertext::Single(c) => {
            let n = c.ctexts.len();
            words.push(1u64);
            words.push(curve_to_word(c.ephemeral_key.curve));
            words.push(c.ephemeral_key.value);
            words.push(c.pop);
            words.push(n as u64);
            words.push(curve_to_word(c.ctexts[0].curve));
            let mut j: usize = 0;
            while j < n
                invariant
                    j <= n,
                    n == c.ctexts@.len(),
                    words@.len() == 6 + j,
                    words@[0] == 1u64,
                    words@[1] == curve_word(c.ephemeral_key.curve),
                    words@[2] == c.ephemeral_key.value,
                    words@[3] == c.pop,
                    words@[4] == n as u64,
                    words@[5] == curve_word(c.ctexts@[0].curve),
                    forall|k: int| 0 <= k < j ==> (#[trigger] words@[6 + k]) == c.ctexts@[k].value,
                decreases n - j,
            {
                words.push(c.ctexts[j].value);
                j = j + 1;
            }
            proof {
                let cw = ser_ciphertext(ciphertext_model(MEGaCiphertext::Single(*c)));
                assert(cw.len() == 6 + n);
                assert forall|k: int| 0 <= k < cw.len() implies words@[k] == cw[k] by {
                    if k >= 6 {
                        assert(words@[6 + (k - 6)] == c.ctexts@[k - 6].value);
                    }
                }
                assert(words@ =~= cw);
            }
        },
        MEGaCiphertext::Pairs(c) => {
            let n = c.ctexts.len();
            words.push(2u64);
            words.push(curve_to_word(c.ephemeral_key.curve));
            words.push(c.ephemeral_key.value);
            words.push(c.pop);
            words.push(n as u64);
            words.push(curve_to_word(c.ctexts[0].0.curve));
            let mut j: usize = 0;
            while j < n
                invariant
                    j <= n,
                    n == c.ctexts@.len(),
                    words@.len() == 6 + j,
                    words@[0] == 2u64,
                    words@[1] == curve_word(c.ephemeral_key.curve),
                    words@[2] == c.ephemeral_key.value,
                    words@[3] == c.pop,
                    words@[4] == n as u64,
                    words@[5] == curve_word(c.ctexts@[0].0.curve),
                    forall|k: int|
                        0 <= k < j ==> (#[trigger] words@[6 + k]) == c.ctexts@[k].0.value,
                decreases n - j,
            {
                words.push(c.ctexts[j].0.value);
                j = j + 1;
            }
            let mut j2: usize = 0;
            while j2 < n
                invariant
                    j2 <= n,
                    n == c.ctexts@.len(),
                    words@.len() == 6 + n + j2,
                    words@[0] == 2u64,
                    words@[1] == curve_word(c.ephemeral_key.curve),
                    words@[2] == c.ephemeral_key.value,
                    words@[3] == c.pop,
                    words@[4] == n as u64,
                    words@[5] == curve_word(c.ctexts@[0].0.curve),
                    forall|k: int|
                        0 <= k < n ==> (#[trigger] words@[6 + k]) == c.ctexts@[k].0.value,
                    forall|k: int|
                        0 <= k < j2 ==> (#[trigger] words@[6 + n + k]) == c.ctexts@[k].1.value,
                decreases n - j2,
            {
                words.push(c.ctexts[j2].1.value);
                j2 = j2 + 1;
            }
            proof {
                let cw = ser_ciphertext(ciphertext_model(MEGaCiphertext::Pairs(*c)));
                assert(cw.len() == 6 + 2 * n);
                assert forall|k: int| 0 <= k < cw.len() implies words@[k] == cw[k] by {
                    if 6 <= k < 6 + n {
                        assert(words@[6 + (k - 6)] == c.ctexts@[k - 6].0.value);
                    } else if 6 + n <= k {
                        assert(words@[6 + n as int + (k - 6 - n)] == c.ctexts@[k - 6 - n].1.value);
                    }
                }
                assert(words@ =~= cw);
            }
        },
    }
    words
}

/// The words of a commitment.
fn commitment_words(c: &PolynomialCommitment) -> (r: Vec<u64>)
    requires
        c.wf(),
        c.points_seq().len() < 0x1_0000_0000,
    ensures
        r@ == ser_commitment(commitment_model(*c)),
{
    let mut words: Vec<u64> = Vec::new();
    match c {
        PolynomialCommitment::Simple(sc) => {
            let m = sc.points.len();
            words.push(1u64);
            words.push(curve_to_word(sc.curve));
            words.push(m as u64);
            let mut j: usize = 0;
            while j < m
                invariant
                    j <= m,
                    m == sc.points@.len(),
                    words@.len() == 3 + j,
                    words@[0] == 1u64,
                    words@[1] == curve_word(sc.curve),
                    words@[2] == m as u64,
                    forall|k: int|
                        0 <= k < j ==> (#[trigger] words@[3 + k]) == sc.points@[k].value,
                decreases m - j,
            {
                words.push(sc.points[j].value);
                j = j + 1;
            }
            proof {
                let mw = ser_commitment(commitment_model(PolynomialCommitment::Simple(*sc)));
                assert(mw.len() == 3 + m);
                assert forall|k: int| 0 <= k < mw.len() implies words@[k] == mw[k] by {
                    if k >= 3 {
                        assert(words@[3 + (k - 3)] == sc.points@[k - 3].value);
                    }
                }
                assert(words@ =~= mw);
            }
        },
        PolynomialCommitment::Pedersen(pc) => {
            let m = pc.points.len();
            words.push(2u64);
            words.push(curve_to_word(pc.curve));
            words.push(m as u64);
            let mut j: usize = 0;
            while j < m
                invariant
                    j <= m,
                    m == pc.points@.len(),
                    words@.len() == 3 + j,
                    words@[0] == 2u64,
                    words@[1] == curve_word(pc.curve),
                    words@[2] == m as u64,
                    forall|k: int|
                        0 <= k < j ==> (#[trigger] words@[3 + k]) == pc.points@[k].value,
                decreases m - j,
            {
                words.push(pc.points[j].value);
                j = j + 1;
            }
            proof {
                let mw = ser_commitment(commitment_model(PolynomialCommitment::Pedersen(*pc)));
                assert(mw.len() == 3 + m);
                assert forall|k: int| 0 <= k < mw.len() implies words@[k] == mw[k] by {
                    if k >= 3 {
                        assert(words@[3 + (k - 3)] == pc.points@[k - 3].value);
                    }
                }
                assert(words@ =~= mw);
            }
        },
    }
    words
}

/// The words of an optional proof.
fn proof_words(p: &Option<ZkProof>) -> (r: Vec<u64>)
    ensures
        r@ == ser_proof(*p),
{
    let mut words: Vec<u64> = Vec::new();
    match p {
        None => {
            words.push(0u64);
        },
        Some(ZkProof::ProofOfMaskedResharing(e)) => {
            words.push(1u64);
            words.push(curve_to_word(e.curve));
            words.push(e.rand_commitment);
            words.push(e.response);
        },
        Some(ZkProof::ProofOfProduct(e)) => {
            words.push(2u64);
            words.push(curve_to_word(e.curve));
            words.push(e.rand_commitment_value);
            words.push(e.rand_commitment_product);
            words.push(e.response_value);
            words.push(e.response_masking);
            words.push(e.response_product_masking);
        },
    }
    proof {
        assert(words@ =~= ser_proof(*p));
    }
    words
}

} // verus!
