use legalage_logic::api::{Private, ProofQrCode, Public, QrRequest, Relation};
use legalage_logic::obfuscate::hide_buffer;
use legalage_logic::zk::{assemble_proof_qr, fold_public, prepare_witness, verify_proof};

fn sample_public() -> Public {
    Public { today: 2020, now: 1200, relation: Relation::Older, delta: 18 }
}

#[test]
fn qr_round_trip() {
    let qr = ProofQrCode {
        public: sample_public(),
        proof: vec![0, 255, 1, 2, 3, 4, 5, 6, 7, 8, 9, 59, 61, 128],
        challenge: vec![0, 0, 31, 64, 200],
    };
    let s = qr.to_string();
    let back = ProofQrCode::from_str(&s).unwrap();
    assert_eq!(back.public.today, 2020);
    assert_eq!(back.public.now, 1200);
    assert_eq!(back.public.delta, 18);
    assert!(back.public.relation == Relation::Older);
    assert_eq!(back.proof, qr.proof);
    assert_eq!(back.challenge, qr.challenge);
}

#[test]
fn qr_zero_header() {
    let qr = ProofQrCode {
        public: Public { today: 0, now: 0, relation: Relation::Younger, delta: 0 },
        proof: Vec::new(),
        challenge: Vec::new(),
    };
    let s = qr.to_string();
    assert_eq!(s, "1111111111111;;");
    let back = ProofQrCode::from_str(&s).unwrap();
    assert_eq!(back.public.today, 0);
    assert!(back.public.relation == Relation::Younger);
    assert_eq!(back.proof, Vec::<u8>::new());
}

#[test]
fn qr_negative_now_round_trip() {
    let qr = ProofQrCode {
        public: Public { today: 5, now: -1, relation: Relation::Older, delta: 0 },
        proof: vec![1],
        challenge: vec![2],
    };
    let back = ProofQrCode::from_str(&qr.to_string()).unwrap();
    assert_eq!(back.public.now, -1);
    assert_eq!(back.public.today, 5);
}

#[test]
fn qr_malformed_rejects() {
    assert!(ProofQrCode::from_str("abc").is_err());
    assert!(ProofQrCode::from_str("a;b").is_err());
    assert!(ProofQrCode::from_str(";;;").is_err());
    // '0' is not a base58 digit
    assert!(ProofQrCode::from_str("0;;").is_err());
    // empty header token decodes to zero bytes: fewer than 13
    assert!(ProofQrCode::from_str(";;").is_err());
    // non-ASCII input
    assert!(ProofQrCode::from_str("é;;").is_err());
}

#[test]
fn relation_byte_legacy_tolerant() {
    // a relation byte other than 0 reads as Older
    let header: Vec<u8> = vec![0, 0, 7, 228, 0, 0, 4, 176, 0, 0, 0, 18, 7];
    let token = bs58::encode(&header).into_string();
    let p = ProofQrCode::public_from_str(&token).unwrap();
    assert_eq!(p.today, 2020);
    assert_eq!(p.now, 1200);
    assert_eq!(p.delta, 18);
    assert!(p.relation == Relation::Older);
}

#[test]
fn header_token_round_trip() {
    let qr = ProofQrCode { public: sample_public(), proof: Vec::new(), challenge: Vec::new() };
    let token = qr.public_to_string();
    let p = ProofQrCode::public_from_str(&token).unwrap();
    assert_eq!(p.today, 2020);
    assert_eq!(p.now, 1200);
    assert_eq!(p.delta, 18);
    assert!(p.relation == Relation::Older);
}

#[test]
fn hide_involutive() {
    let orig: Vec<u8> = vec![1, 2, 3, 250, 0, 77];
    let pad: Vec<u8> = vec![2, 7];
    let mut buf = orig.clone();
    hide_buffer(&mut buf, &pad);
    assert_ne!(buf, orig);
    hide_buffer(&mut buf, &pad);
    assert_eq!(buf, orig);

    let mut same = orig.clone();
    hide_buffer(&mut same, &Vec::new());
    assert_eq!(same, orig);
}

fn request(today: i32, relation: Relation, delta: i32, birthday: i32) -> QrRequest {
    QrRequest {
        public: Public { today, now: 1200, relation, delta },
        private: Private { birthday, private_key: Vec::new(), photos_digest: vec![2, 7] },
    }
}

#[test]
fn relation_validity() {
    assert!(request(2020, Relation::Older, 18, 2001).is_relation_valid());
    assert!(request(2020, Relation::Younger, 21, 2001).is_relation_valid());
    assert!(!request(2020, Relation::Older, 18, 2010).is_relation_valid());
    // equality is strict for both relations
    assert!(!request(2020, Relation::Older, 20, 2000).is_relation_valid());
    assert!(!request(2020, Relation::Younger, 20, 2000).is_relation_valid());
}

#[test]
fn witness_folding() {
    const M: i32 = legalage_logic::MAX_JULIAN_DAY;
    // valid Older request passes through
    assert_eq!(prepare_witness(&request(2020, Relation::Older, 18, 2001)), (2001, 18, 2020));
    // valid Younger request folds through the maximum day
    assert_eq!(
        prepare_witness(&request(2020, Relation::Younger, 21, 2001)),
        (M - 2001, M - 21, 2 * M - 2020)
    );
    // invalid request folds delta to zero and nothing else
    assert_eq!(prepare_witness(&request(2020, Relation::Older, 18, 2010)), (2010, 0, 2020));
    // the verifier-side fold mirrors the prover on delta and today
    assert_eq!(fold_public(21, 2020, Relation::Younger), (M - 21, 2 * M - 2020));
    assert_eq!(fold_public(18, 2020, Relation::Older), (18, 2020));
}

#[test]
fn assemble_masks_proof_and_derives_challenge() {
    let rq = request(2020, Relation::Older, 18, 2001);
    let proof_bytes: Vec<u8> = vec![10, 20, 30, 40, 50];
    let qr = assemble_proof_qr(&rq, proof_bytes.clone());
    // proof bytes are masked with the repeating photo digest pad
    let mut expected = proof_bytes.clone();
    hide_buffer(&mut expected, &vec![2, 7]);
    assert_eq!(qr.proof, expected);
    assert_eq!(qr.challenge.len(), 32);
    // the challenge is the derivation chain on the folded inputs
    let card_key = legalage_logic::mimc::card_key_parts(2001, &Vec::new(), &vec![2, 7]);
    let challenge = legalage_logic::mimc::compute_challenge(card_key, 2020);
    assert_eq!(qr.challenge, challenge);
}

#[test]
fn decoy_assembly_is_well_formed() {
    // an invalid request still assembles a complete artifact, with the
    // challenge derived for the zeroed delta
    let rq = request(2020, Relation::Older, 18, 2010);
    let qr = assemble_proof_qr(&rq, vec![1, 2, 3]);
    assert_eq!(qr.public.delta, 18);
    assert_eq!(qr.challenge.len(), 32);
    let s = qr.to_string();
    assert!(ProofQrCode::from_str(&s).is_ok());
}

#[test]
fn verify_rejects_garbage() {
    let qr = ProofQrCode {
        public: sample_public(),
        proof: vec![0; 128],
        challenge: vec![0; 32],
    };
    // nonsense verification key bytes can never satisfy the pairing check
    assert!(verify_proof(&qr, &vec![2, 7], &vec![1, 2, 3]).is_err());
    // out-of-range day fields are rejected before any parsing
    let bad = ProofQrCode {
        public: Public { today: -1, now: 0, relation: Relation::Older, delta: 0 },
        proof: Vec::new(),
        challenge: Vec::new(),
    };
    assert!(verify_proof(&bad, &Vec::new(), &Vec::new()).is_err());
}
