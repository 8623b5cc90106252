//! Privacy-preserving age attestation: a prover turns a secret birth date
//! into a compact QR artifact that shows, in zero knowledge, that the date
//! stands in a chosen ordering relation to a public reference date.

use vstd::prelude::*;

pub mod api;
pub mod codec;
pub mod common_api;
pub mod field;
pub mod mimc;
pub mod obfuscate;
pub mod zk;

verus! {

/// Largest Julian day number any request field may carry.
pub const MAX_JULIAN_DAY: i32 = 9999999;

/// The scalar field order of the BN254/BN256 curve; all hashing and key
/// derivation is arithmetic modulo this prime.
pub open spec fn field_order() -> nat {
    21888242871839275222246405745257275088548364400416034343698204186575808495617nat
}

} // verus!
