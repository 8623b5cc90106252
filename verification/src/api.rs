//! Request and artifact types of the attestation API.

use vstd::prelude::*;

verus! {

/// Trust level of the verifier.
pub enum VerifierLevel {
    SelfSignedTest,
    HasPublicCertificate,
    Professional,
}

/// The relation to be proved between the birth date and the reference date.
#[derive(PartialEq, Eq, Structural, Debug, Clone, Copy)]
pub enum Relation {
    Younger,
    Older,
}

/// Public part of the proof: carried openly in the QR artifact.
#[derive(Debug, Clone, Copy)]
pub struct Public {
    /// Today, as a Julian day number.
    pub today: i32,
    /// Current UTC time since midnight, in seconds. Publicly encoded in the
    /// QR code but not consumed by the circuit.
    pub now: i32,
    /// Relation being asserted.
    pub relation: Relation,
    /// Minimal (maximal) difference between `today` and `birthday`, in days.
    pub delta: i32,
}

impl Public {
    pub fn new() -> (r: Self)
        ensures
            r.today == 0,
            r.now == 0,
            r.relation == Relation::Younger,
            r.delta == 0,
    {
        Public { today: 0, now: 0, relation: Relation::Younger, delta: 0 }
    }
}

/// Private part of the proof: never leaves the prover.
#[derive(Debug)]
pub struct Private {
    /// Birthday, as a Julian day number.
    pub birthday: i32,
    /// Private key known only to the prover and to the certifier: a
    /// big-endian encoded scalar of the field.
    pub private_key: Vec<u8>,
    /// Digest of the photo set: a big-endian encoded scalar of the field.
    pub photos_digest: Vec<u8>,
}

impl Private {
    pub fn new() -> (r: Self)
        ensures
            r.birthday == 0,
            r.private_key@ == Seq::<u8>::empty(),
            r.photos_digest@ == Seq::<u8>::empty(),
    {
        Private { birthday: 0, private_key: Vec::new(), photos_digest: Vec::new() }
    }
}

/// Request for QR code generation.
#[derive(Debug)]
pub struct QrRequest {
    pub public: Public,
    pub private: Private,
}

/// A day count that fits the supported Julian range.
pub open spec fn julian_ok(x: int) -> bool {
    0 <= x <= crate::MAX_JULIAN_DAY
}

/// Whether the requested relation actually holds between the private
/// birthday and the public reference date. Equality is not valid: the
/// asserted inequalities are strict.
pub open spec fn spec_relation_valid(rq: QrRequest) -> bool {
    match rq.public.relation {
        Relation::Younger => rq.private.birthday + rq.public.delta > rq.public.today,
        Relation::Older => rq.private.birthday + rq.public.delta < rq.public.today,
    }
}

impl QrRequest {
    pub fn new() -> (r: Self)
        ensures
            r.public.today == 0,
            r.public.now == 0,
            r.public.relation == Relation::Younger,
            r.public.delta == 0,
            r.private.birthday == 0,
            r.private.private_key@ == Seq::<u8>::empty(),
            r.private.photos_digest@ == Seq::<u8>::empty(),
    {
        QrRequest { public: Public::new(), private: Private::new() }
    }

    pub fn to_qr_code_string() -> (r: String)
        ensures
            r@ == Seq::<char>::empty(),
    {
        String::new()
    }

    pub fn from_qr_code_string(_qr_str: &str) -> (r: Self)
        ensures
            r.public.today == 0,
            r.public.now == 0,
            r.public.relation == Relation::Younger,
            r.public.delta == 0,
            r.private.birthday == 0,
            r.private.private_key@ == Seq::<u8>::empty(),
            r.private.photos_digest@ == Seq::<u8>::empty(),
    {
        QrRequest::new()
    }

    pub fn is_relation_valid(&self) -> (r: bool)
        requires
            julian_ok(self.private.birthday as int),
            julian_ok(self.public.delta as int),
        ensures
            r == spec_relation_valid(*self),
    {
        match self.public.relation {
            Relation::Younger => self.private.birthday + self.public.delta > self.public.today,
            Relation::Older => self.private.birthday + self.public.delta < self.public.today,
        }
    }
}

/// QR code containing the proof: generated by the prover and checked by
/// the verifier.
#[derive(Debug, Clone)]
pub struct ProofQrCode {
    /// Public part of the proof.
    pub public: Public,
    /// Obfuscated proof bytes: the serialized Groth16 points, masked with
    /// the photo digest pad.
    pub proof: Vec<u8>,
    /// Challenge: big-endian encoded scalar, the public output of the
    /// proof computation.
    pub challenge: Vec<u8>,
}

/// Parse or verification failure.
#[derive(Debug, Clone)]
pub struct QrError {}

} // verus!
