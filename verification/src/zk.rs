//! Zero-knowledge pipeline: relation folding with the decoy policy, the
//! witness the circuit consumes, artifact assembly, and Groth16
//! verification of a scanned artifact.

use vstd::prelude::*;
use crate::api::{julian_ok, spec_relation_valid, ProofQrCode, QrError, QrRequest, Relation};
use crate::codec::QrView;
use crate::field::be_val;
use crate::mimc::{canonical_scalar, card_key_of, card_key_parts, challenge_of, compute_challenge};
use crate::obfuscate::{hide_buffer, xor_mask};
use bellman_ce::groth16::{prepare_verifying_key, verify_proof as groth16_pairing_check, Proof,
    VerifyingKey};
use bellman_ce::pairing::bn256::{Bn256, Fr};
use bellman_ce::pairing::ff::PrimeField;
use num_bigint::{BigInt, Sign};

verus! {

/// Folded circuit witness chosen by the prover: (birthday, delta, today)
/// as the single "older" circuit consumes them. A valid Younger request is
/// folded through MAX_JULIAN_DAY; an invalid request of either kind takes
/// the decoy path, which only zeroes delta and never reports an error.
pub open spec fn fold_prover(rq: QrRequest) -> (int, int, int) {
    if spec_relation_valid(rq) {
        match rq.public.relation {
            Relation::Older => (
                rq.private.birthday as int,
                rq.public.delta as int,
                rq.public.today as int,
            ),
            Relation::Younger => (
                crate::MAX_JULIAN_DAY - rq.private.birthday,
                crate::MAX_JULIAN_DAY - rq.public.delta,
                2 * crate::MAX_JULIAN_DAY - rq.public.today,
            ),
        }
    } else {
        (rq.private.birthday as int, 0int, rq.public.today as int)
    }
}

/// Folded public inputs the verifier recomputes from the header alone;
/// it must mirror the prover-side fold on delta and today exactly.
pub open spec fn fold_verifier(delta: int, today: int, relation: Relation) -> (int, int) {
    match relation {
        Relation::Older => (delta, today),
        Relation::Younger => (
            crate::MAX_JULIAN_DAY - delta,
            2 * crate::MAX_JULIAN_DAY - today,
        ),
    }
}

/// Compute the folded circuit witness for a request.
pub fn prepare_witness(rq: &QrRequest) -> (r: (i32, i32, i32))
    requires
        julian_ok(rq.private.birthday as int),
        julian_ok(rq.public.delta as int),
        julian_ok(rq.public.today as int),
    ensures
        (r.0 as int, r.1 as int, r.2 as int) == fold_prover(*rq),
        0 <= r.0 <= crate::MAX_JULIAN_DAY,
        0 <= r.1 <= crate::MAX_JULIAN_DAY,
        0 <= r.2 <= 2 * crate::MAX_JULIAN_DAY,
{
    let mut birthday = rq.private.birthday;
    let mut delta = rq.public.delta;
    let mut today = rq.public.today;
    if rq.is_relation_valid() {
        match rq.public.relation {
            Relation::Younger => {
                birthday = crate::MAX_JULIAN_DAY - birthday;
                delta = crate::MAX_JULIAN_DAY - delta;
                today = 2 * crate::MAX_JULIAN_DAY - today;
            },
            Relation::Older => {},
        }
    } else {
        delta = 0;
    }
    (birthday, delta, today)
}

/// Compute the folded public inputs on the verifier side.
pub fn fold_public(delta: i32, today: i32, relation: Relation) -> (r: (i32, i32))
    requires
        julian_ok(delta as int),
        julian_ok(today as int),
    ensures
        (r.0 as int, r.1 as int) == fold_verifier(delta as int, today as int, relation),
        0 <= r.0 <= crate::MAX_JULIAN_DAY,
        0 <= r.1 <= 2 * crate::MAX_JULIAN_DAY,
{
    match relation {
        Relation::Older => (delta, today),
        Relation::Younger => (crate::MAX_JULIAN_DAY - delta, 2 * crate::MAX_JULIAN_DAY - today),
    }
}

/// For a valid request, the folded witness satisfies the strict "older"
/// inequality the circuit checks, and the prover's folded delta and today
/// agree exactly with what the verifier recomputes from the public header.
pub proof fn lemma_fold_agreement(rq: QrRequest)
    requires
        julian_ok(rq.private.birthday as int),
        julian_ok(rq.public.delta as int),
        julian_ok(rq.public.today as int),
        spec_relation_valid(rq),
    ensures
        fold_prover(rq).0 + fold_prover(rq).1 < fold_prover(rq).2,
        fold_prover(rq).1 == fold_verifier(
            rq.public.delta as int,
            rq.public.today as int,
            rq.public.relation,
        ).0,
        fold_prover(rq).2 == fold_verifier(
            rq.public.delta as int,
            rq.public.today as int,
            rq.public.relation,
        ).1,
{
}

/// A request asserting exact equality (`birthday + delta == today`) is
/// valid for neither relation: both asserted inequalities are strict, so
/// such a request always takes the decoy path and folds delta to zero.
pub proof fn lemma_equal_dates_decoy(rq: QrRequest)
    requires
        rq.private.birthday + rq.public.delta == rq.public.today,
    ensures
        !spec_relation_valid(rq),
        fold_prover(rq).1 == 0,
{
}

/// The challenge the circuit exposes for a request's folded witness: the
/// key-derivation chain applied to the folded birthday and today.
pub open spec fn expected_challenge_val(rq: QrRequest) -> nat {
    challenge_of(
        fold_prover(rq).2 as nat,
        card_key_of(
            fold_prover(rq).0 as nat,
            be_val(rq.private.private_key@),
            be_val(rq.private.photos_digest@),
        ),
    )
}

/// Assemble the QR artifact from a request and the Groth16 proof bytes an
/// external circuit runtime produced for the folded witness: derive the
/// challenge, mask the proof bytes with the photo digest, and attach the
/// public header. Total: an invalid request assembles like a valid one.
pub fn assemble_proof_qr(rq: &QrRequest, proof_bytes: Vec<u8>) -> (q: ProofQrCode)
    requires
        julian_ok(rq.private.birthday as int),
        julian_ok(rq.public.delta as int),
        julian_ok(rq.public.today as int),
    ensures
        q.public == rq.public,
        q.proof@ == xor_mask(proof_bytes@, rq.private.photos_digest@),
        canonical_scalar(q.challenge@),
        be_val(q.challenge@) == expected_challenge_val(*rq),
{
    let w = prepare_witness(rq);
    let card_key = card_key_parts(w.0, &rq.private.private_key, &rq.private.photos_digest);
    let challenge = compute_challenge(card_key, w.2);
    let mut hidden = proof_bytes;
    hide_buffer(&mut hidden, &rq.private.photos_digest);
    ProofQrCode { public: rq.public, proof: hidden, challenge }
}

/// Outcome of parsing the verification key and the proof bytes and
/// checking the Groth16 pairing equation on the public inputs
/// `[delta_encoded, today_encoded, challenge]`: a fixed function of those
/// arguments.
pub uninterp spec fn groth16_accepts(
    vk: Seq<u8>,
    proof: Seq<u8>,
    delta_e: int,
    today_e: int,
    challenge: Seq<u8>,
) -> bool;

/// Relies on bellman_ce's groth16 module over the BN256 curve:
/// VerifyingKey::read parses the key bytes, Proof::read parses the
/// compressed proof points and rejects malformed ones, and verify_proof
/// decides the pairing equation for the inputs [delta_e, today_e,
/// challenge], each embedded into the scalar field through its decimal
/// string (reducing the challenge modulo the field order). Every failure
/// yields false, and the outcome depends on the arguments alone.
#[verifier::external_body]
fn groth16_verify(
    vk: &Vec<u8>,
    proof: &Vec<u8>,
    delta_e: i32,
    today_e: i32,
    challenge: &Vec<u8>,
) -> (r: bool)
    requires
        0 <= delta_e,
        0 <= today_e,
    ensures
        r == groth16_accepts(vk@, proof@, delta_e as int, today_e as int, challenge@),
{
    let parsed = (VerifyingKey::<Bn256>::read(&mut vk.as_slice()),
        Proof::<Bn256>::read(&mut proof.as_slice()));
    let (vkk, pf) = match parsed {
        (Ok(k), Ok(p)) => (k, p),
        _ => return false,
    };
    let c = BigInt::from_bytes_be(Sign::Plus, challenge.as_slice());
    let scalars = (Fr::from_str(&delta_e.to_string()), Fr::from_str(&today_e.to_string()),
        Fr::from_str(&c.to_str_radix(10)));
    let inputs = match scalars {
        (Some(a), Some(b), Some(x)) => [a, b, x],
        _ => return false,
    };
    groth16_pairing_check(&prepare_verifying_key(&vkk), &pf, &inputs).unwrap_or(false)
}

/// Prover-verifier alignment, the provable half of soundness: for a valid
/// request and one photo digest on both sides, accepting the assembled
/// artifact comes down to the pairing check on the very proof bytes and
/// the very folded inputs the prover handed to the circuit runtime — the
/// two folds agree and the obfuscation mask drops out. What remains
/// beyond this is the behavior of the circuit and the pairing check
/// themselves, which the library calls but does not prove.
pub proof fn lemma_prover_verifier_alignment(
    rq: QrRequest,
    proof_bytes: Seq<u8>,
    challenge: Seq<u8>,
    vk: Seq<u8>,
)
    requires
        julian_ok(rq.private.birthday as int),
        julian_ok(rq.public.delta as int),
        julian_ok(rq.public.today as int),
        spec_relation_valid(rq),
    ensures
        spec_verify_ok(
            QrView {
                public: rq.public,
                proof: xor_mask(proof_bytes, rq.private.photos_digest@),
                challenge,
            },
            rq.private.photos_digest@,
            vk,
        ) <==> groth16_accepts(
            vk,
            proof_bytes,
            fold_prover(rq).1,
            fold_prover(rq).2,
            challenge,
        ),
{
    lemma_fold_agreement(rq);
    crate::obfuscate::lemma_hide_involutive(proof_bytes, rq.private.photos_digest@);
    assert(xor_mask(xor_mask(proof_bytes, rq.private.photos_digest@), rq.private.photos_digest@)
        == proof_bytes);
}

/// When a scanned artifact verifies: its day fields are in range and the
/// pairing check accepts the de-obfuscated proof against the folded
/// public inputs and the carried challenge.
pub open spec fn spec_verify_ok(q: QrView, photo_digest: Seq<u8>, vk: Seq<u8>) -> bool {
    &&& julian_ok(q.public.delta as int)
    &&& julian_ok(q.public.today as int)
    &&& groth16_accepts(
        vk,
        xor_mask(q.proof, photo_digest),
        fold_verifier(q.public.delta as int, q.public.today as int, q.public.relation).0,
        fold_verifier(q.public.delta as int, q.public.today as int, q.public.relation).1,
        q.challenge,
    )
}

/// Verify a scanned artifact against a verification key: de-obfuscate the
/// proof bytes with the photo digest, rebuild the folded public inputs
/// from the header, and run the pairing check. Every parse or range
/// failure collapses to an error.
pub fn verify_proof(
    qr: &ProofQrCode,
    photo_digest: &Vec<u8>,
    verification_key: &Vec<u8>,
) -> (r: Result<(), QrError>)
    ensures
        r is Ok <==> spec_verify_ok(qr@, photo_digest@, verification_key@),
{
    let delta = qr.public.delta;
    let today = qr.public.today;
    if delta < 0 || delta > crate::MAX_JULIAN_DAY || today < 0 || today > crate::MAX_JULIAN_DAY {
        return Err(QrError {});
    }
    let f = fold_public(delta, today, qr.public.relation);
    let mut raw: Vec<u8> = Vec::new();
    let mut i: usize = 0;
    while i < qr.proof.len()
        invariant
            i <= qr.proof@.len(),
            raw@ =~= qr.proof@.subrange(0, i as int),
        decreases qr.proof@.len() - i,
    {
        raw.push(qr.proof[i]);
        i += 1;
        proof {
            assert(raw@ =~= qr.proof@.subrange(0, i as int));
        }
    }
    proof {
        assert(raw@ =~= qr.proof@);
    }
    hide_buffer(&mut raw, photo_digest);
    if groth16_verify(verification_key, &raw, f.0, f.1, &qr.challenge) {
        Ok(())
    } else {
        Err(QrError {})
    }
}

} // verus!
