//! API surface shared with the certifier back end.

use vstd::prelude::*;

verus! {

/// Trust level of the verifier.
pub enum VerifierLevel {
    SelfSignedTest,
    HasPublicCertificate,
    Professional,
}

} // verus!
