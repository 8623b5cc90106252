use legalage_logic::api::Private;
use legalage_logic::mimc::compute_mimc7r10_hash;

const FIELD_ORDER_DEC: &str =
    "21888242871839275222246405745257275088548364400416034343698204186575808495617";

/// Decimal field value as a canonical 32-byte big-endian vector.
fn scalar_bytes(dec: &str) -> Vec<u8> {
    let v = num_bigint::BigInt::parse_bytes(dec.as_bytes(), 10).unwrap();
    let (_, raw) = v.to_bytes_be();
    let mut out = vec![0u8; 32 - raw.len()];
    out.extend_from_slice(&raw);
    out
}

fn mul_mod(a: &str, b: &str) -> Vec<u8> {
    let p = num_bigint::BigInt::parse_bytes(FIELD_ORDER_DEC.as_bytes(), 10).unwrap();
    let av = num_bigint::BigInt::parse_bytes(a.as_bytes(), 10).unwrap();
    let bv = num_bigint::BigInt::parse_bytes(b.as_bytes(), 10).unwrap();
    let (_, raw) = ((av * bv) % &p).to_bytes_be();
    let mut out = vec![0u8; 32 - raw.len()];
    out.extend_from_slice(&raw);
    out
}

#[test]
fn generate_random_private_key() {
    let key = legalage_logic::mimc::generate_random_private_key();
    println!("{:?}", key);
    assert_eq!(32, key.len());
}

#[test]
fn mimc7r10() {
    // values from the circuit library's own test suite
    assert_eq!(
        compute_mimc7r10_hash(&scalar_bytes("0"), &scalar_bytes("0")),
        scalar_bytes("6004544488495356385698286530147974336054653445122716140990101827963729149289")
    );
    assert_eq!(
        compute_mimc7r10_hash(&scalar_bytes("100"), &scalar_bytes("0")),
        scalar_bytes("2977550761518141183167168643824354554080911485709001361112529600968315693145")
    );
    assert_eq!(
        compute_mimc7r10_hash(
            &scalar_bytes("100"),
            &scalar_bytes(
                "21888242871839275222246405745257275088548364400416034343698204186575808495617"
            )
        ),
        scalar_bytes("2977550761518141183167168643824354554080911485709001361112529600968315693145")
    );
    assert_eq!(
        compute_mimc7r10_hash(
            &scalar_bytes(
                "21888242871839275222246405745257275088548364400416034343698204186575808495618"
            ),
            &scalar_bytes("1")
        ),
        scalar_bytes("11476724043755138071320043459606423473319855817296339514744600646762741571430")
    );
    assert_eq!(
        compute_mimc7r10_hash(
            &scalar_bytes(
                "21888242871839275222246405745257275088548364400416034343698204186575808495617"
            ),
            &scalar_bytes(
                "21888242871839275222246405745257275088548364400416034343698204186575808495617"
            )
        ),
        scalar_bytes("6004544488495356385698286530147974336054653445122716140990101827963729149289")
    );
}

#[test]
fn generate_card_key() {
    let m1 = "2398929016733331352351677352383442125702690766615627729516078292095018104789";
    assert_eq!(
        compute_mimc7r10_hash(&scalar_bytes("3"), &scalar_bytes("20010")),
        scalar_bytes(m1)
    );

    let private = Private {
        birthday: 2001,
        private_key: scalar_bytes("10"),
        photos_digest: scalar_bytes("3"),
    };
    let key = legalage_logic::mimc::generate_card_key(private);
    assert_eq!(32, key.len());
    assert_eq!(key, mul_mod("3", m1));
}

#[test]
fn compute_challenge() {
    let m1 = "20806133116655125295815844821187893628062572117889123030572462808546913026234";
    assert_eq!(
        compute_mimc7r10_hash(&scalar_bytes("2020"), &scalar_bytes("27")),
        scalar_bytes(m1)
    );

    let card_key = scalar_bytes("27");
    let today = 2020;
    let challenge = legalage_logic::mimc::compute_challenge(card_key, today);
    assert_eq!(32, challenge.len());
    assert_eq!(challenge, scalar_bytes(m1));
}

#[test]
fn random_key_in_field() {
    let p = num_bigint::BigInt::parse_bytes(FIELD_ORDER_DEC.as_bytes(), 10).unwrap();
    let key = legalage_logic::mimc::generate_random_private_key();
    let v = num_bigint::BigInt::from_bytes_be(num_bigint::Sign::Plus, &key);
    assert!(v < p);
}

#[test]
fn request_defaults() {
    let rq = legalage_logic::api::QrRequest::new();
    assert_eq!(rq.public.today, 0);
    assert_eq!(rq.public.now, 0);
    assert_eq!(rq.public.delta, 0);
    assert!(rq.public.relation == legalage_logic::api::Relation::Younger);
    assert_eq!(rq.private.birthday, 0);
    assert!(rq.private.private_key.is_empty());
    assert!(rq.private.photos_digest.is_empty());
    assert_eq!(legalage_logic::api::QrRequest::to_qr_code_string(), "");
    let other = legalage_logic::api::QrRequest::from_qr_code_string("anything");
    assert_eq!(other.private.birthday, 0);
}

#[test]
fn hash_deterministic() {
    let a = compute_mimc7r10_hash(&scalar_bytes("123"), &scalar_bytes("456"));
    let b = compute_mimc7r10_hash(&scalar_bytes("123"), &scalar_bytes("456"));
    assert_eq!(a, b);
    assert_ne!(a, scalar_bytes("123"));
}
