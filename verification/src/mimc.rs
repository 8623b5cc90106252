//! MiMC7 hashing over the BN254 scalar field, 10 rounds, and the key
//! derivation chain built on it.

use vstd::prelude::*;
use crate::api::Private;
use crate::field::{be_val, pad_be_32, lemma_be_val_injective, lemma_mod_noop};

verus! {

/// Result of the MiMC7 permutation with 10 rounds on reduced inputs
/// `x, k < field_order()`: a fixed public function of its two arguments.
pub uninterp spec fn mimc7r10(x: nat, k: nat) -> nat;

/// Relies on mimc_rs::mimc7_hash_generic, run with 10 rounds over the
/// BN254 scalar field order (the same constant mimc_rs itself parses in
/// generate_constants). Its source uses both inputs only additively before
/// reducing, so the result depends on each input only through its residue
/// modulo the field order; the result itself is reduced, and BigInt's
/// minimal big-endian encoding of it fits in 32 bytes.
#[verifier::external_body]
fn mimc_hash_raw(x: &Vec<u8>, k: &Vec<u8>) -> (r: Vec<u8>)
    ensures
        be_val(r@) == mimc7r10(
            be_val(x@) % crate::field_order(),
            be_val(k@) % crate::field_order(),
        ),
        be_val(r@) < crate::field_order(),
        r@.len() <= 32,
{
    let m = num_bigint::BigInt::parse_bytes(
        b"21888242871839275222246405745257275088548364400416034343698204186575808495617",
        10,
    ).unwrap();
    let xv = num_bigint::BigInt::from_bytes_be(num_bigint::Sign::Plus, x.as_slice());
    let kv = num_bigint::BigInt::from_bytes_be(num_bigint::Sign::Plus, k.as_slice());
    mimc_rs::mimc7_hash_generic(&m, &xv, &kv, 10).to_bytes_be().1
}

/// Relies on num_bigint multiplication and mimc_rs::modulus: the result is
/// the product of the two scalars reduced modulo the BN254 field order,
/// minimally big-endian encoded.
#[verifier::external_body]
fn field_mul_raw(a: &Vec<u8>, b: &Vec<u8>) -> (r: Vec<u8>)
    ensures
        be_val(r@) == (be_val(a@) * be_val(b@)) % crate::field_order(),
        r@.len() <= 32,
{
    let m = num_bigint::BigInt::parse_bytes(
        b"21888242871839275222246405745257275088548364400416034343698204186575808495617",
        10,
    ).unwrap();
    let av = num_bigint::BigInt::from_bytes_be(num_bigint::Sign::Plus, a.as_slice());
    let bv = num_bigint::BigInt::from_bytes_be(num_bigint::Sign::Plus, b.as_slice());
    mimc_rs::modulus(&(av * bv), &m).to_bytes_be().1
}

/// Relies on rand::thread_rng for entropy, num_bigint for decoding the
/// drawn bytes and mimc_rs::modulus for the reduction. Nothing is promised
/// of which scalar comes back, only that it is a reduced field element in
/// minimal big-endian encoding.
#[verifier::external_body]
fn random_scalar_raw() -> (r: Vec<u8>)
    ensures
        be_val(r@) < crate::field_order(),
        r@.len() <= 32,
{
    let mut buf = [0u8; 32];
    rand::Rng::fill(&mut rand::thread_rng(), &mut buf[..]);
    let m = num_bigint::BigInt::parse_bytes(
        b"21888242871839275222246405745257275088548364400416034343698204186575808495617",
        10,
    ).unwrap();
    let v = num_bigint::BigInt::from_bytes_be(num_bigint::Sign::Plus, &buf);
    mimc_rs::modulus(&v, &m).to_bytes_be().1
}

/// A canonically encoded scalar: exactly 32 big-endian bytes, value below
/// the field order.
pub open spec fn canonical_scalar(s: Seq<u8>) -> bool {
    s.len() == 32 && be_val(s) < crate::field_order()
}

/// Fresh random private key, canonically encoded.
pub fn generate_random_private_key() -> (r: Vec<u8>)
    ensures
        canonical_scalar(r@),
{
    pad_be_32(random_scalar_raw())
}

/// Two-input MiMC7 hash with 10 rounds. Inputs are big-endian byte strings
/// of any length; they are reduced modulo the field order, so the result is
/// insensitive to pre-reduction. The output is canonical.
pub fn compute_mimc7r10_hash(x: &Vec<u8>, k: &Vec<u8>) -> (r: Vec<u8>)
    ensures
        canonical_scalar(r@),
        be_val(r@) == mimc7r10(
            be_val(x@) % crate::field_order(),
            be_val(k@) % crate::field_order(),
        ),
{
    pad_be_32(mimc_hash_raw(x, k))
}

/// Card key derived from the private inputs:
/// `photos_digest * MiMC7r10(photos_digest, birthday * private_key)`,
/// all modulo the field order.
pub open spec fn card_key_of(birthday: nat, private_key: nat, photos_digest: nat) -> nat {
    (mimc7r10(
        photos_digest % crate::field_order(),
        (birthday * private_key) % crate::field_order(),
    ) * photos_digest) % crate::field_order()
}

/// Challenge derived from the reference day and the card key:
/// `MiMC7r10(today, card_key)` modulo the field order.
pub open spec fn challenge_of(today: nat, card_key: nat) -> nat {
    mimc7r10(today % crate::field_order(), card_key % crate::field_order())
}

/// MiMC determinism: hash outputs characterized by the hash contract agree
/// byte-for-byte whenever the inputs agree modulo the field order, whether
/// or not they were reduced before the call.
pub proof fn lemma_mimc_deterministic(
    x1: Seq<u8>,
    k1: Seq<u8>,
    x2: Seq<u8>,
    k2: Seq<u8>,
    r1: Seq<u8>,
    r2: Seq<u8>,
)
    requires
        be_val(x1) % crate::field_order() == be_val(x2) % crate::field_order(),
        be_val(k1) % crate::field_order() == be_val(k2) % crate::field_order(),
        r1.len() == 32,
        r2.len() == 32,
        be_val(r1) == mimc7r10(
            be_val(x1) % crate::field_order(),
            be_val(k1) % crate::field_order(),
        ),
        be_val(r2) == mimc7r10(
            be_val(x2) % crate::field_order(),
            be_val(k2) % crate::field_order(),
        ),
    ensures
        r1 =~= r2,
{
    lemma_be_val_injective(r1, r2);
}

/// Derive the card key from its parts. The birthday is embedded as a
/// field element; key and digest are big-endian scalars.
pub fn card_key_parts(birthday: i32, private_key: &Vec<u8>, photos_digest: &Vec<u8>) -> (r: Vec<
    u8,
>)
    requires
        0 <= birthday,
    ensures
        canonical_scalar(r@),
        be_val(r@) == card_key_of(birthday as nat, be_val(private_key@), be_val(photos_digest@)),
{
    let birthday_bytes = i32_to_scalar_bytes(birthday);
    let k = field_mul_raw(&birthday_bytes, private_key);
    let m1 = mimc_hash_raw(photos_digest, &k);
    proof {
        lemma_mod_noop(be_val(k@), crate::field_order());
    }
    let card_key = field_mul_raw(&m1, photos_digest);
    pad_be_32(card_key)
}

/// Derive the card key from the private inputs.
pub fn generate_card_key(rq: Private) -> (r: Vec<u8>)
    requires
        0 <= rq.birthday,
    ensures
        canonical_scalar(r@),
        be_val(r@) == card_key_of(
            rq.birthday as nat,
            be_val(rq.private_key@),
            be_val(rq.photos_digest@),
        ),
{
    card_key_parts(rq.birthday, &rq.private_key, &rq.photos_digest)
}

/// Compute the challenge for a reference day and a card key.
pub fn compute_challenge(card_key: Vec<u8>, today: i32) -> (r: Vec<u8>)
    requires
        0 <= today,
    ensures
        canonical_scalar(r@),
        be_val(r@) == challenge_of(today as nat, be_val(card_key@)),
{
    let today_bytes = i32_to_scalar_bytes(today);
    pad_be_32(mimc_hash_raw(&today_bytes, &card_key))
}

/// Encode a nonnegative day count as a 32-byte big-endian scalar.
pub fn i32_to_scalar_bytes(x: i32) -> (r: Vec<u8>)
    requires
        0 <= x,
    ensures
        r@.len() == 32,
        be_val(r@) == x,
        be_val(r@) % crate::field_order() == x,
{
    let u: u32 = x as u32;
    let mut v: Vec<u8> = Vec::new();
    v.push(((u >> 24) & 0xff) as u8);
    v.push(((u >> 16) & 0xff) as u8);
    v.push(((u >> 8) & 0xff) as u8);
    v.push((u & 0xff) as u8);
    proof {
        lemma_u32_be_val(u, v@);
        lemma_mod_noop(u as nat, crate::field_order());
    }
    pad_be_32(v)
}

/// The four-byte big-endian split of a 32-bit value denotes that value.
pub proof fn lemma_u32_be_val(u: u32, s: Seq<u8>)
    requires
        s =~= seq![
            ((u >> 24) & 0xff) as u8,
            ((u >> 16) & 0xff) as u8,
            ((u >> 8) & 0xff) as u8,
            (u & 0xff) as u8,
        ],
    ensures
        be_val(s) == u,
{
    let b0 = ((u >> 24) & 0xff) as u8;
    let b1 = ((u >> 16) & 0xff) as u8;
    let b2 = ((u >> 8) & 0xff) as u8;
    let b3 = (u & 0xff) as u8;
    crate::field::lemma_be_val_push(seq![b0, b1, b2], b3);
    crate::field::lemma_be_val_push(seq![b0, b1], b2);
    crate::field::lemma_be_val_push(seq![b0], b1);
    assert(seq![b0, b1, b2, b3] =~= seq![b0, b1, b2].push(b3));
    assert(seq![b0, b1, b2] =~= seq![b0, b1].push(b2));
    assert(seq![b0, b1] =~= seq![b0].push(b1));
    assert(seq![b0] =~= Seq::<u8>::empty().push(b0));
    crate::field::lemma_be_val_push(Seq::<u8>::empty(), b0);
    assert(be_val(seq![b0]) == b0);
    assert(((u >> 24) & 0xff) < 256 && ((u >> 16) & 0xff) < 256 && ((u >> 8) & 0xff) < 256
        && (u & 0xff) < 256
        && ((u >> 24) & 0xff) * 0x1000000 + ((u >> 16) & 0xff) * 0x10000 + ((u >> 8) & 0xff)
        * 0x100 + (u & 0xff) == u) by (bit_vector);
}

} // verus!
