use vstd::prelude::*;

verus! {

/// Relies on rand::random for a drawn byte; nothing is promised of the
/// outcome, and callers must hold for every value that comes back.
#[verifier::external_body]
pub(crate) fn random_byte() -> u8 {
    rand::random()
}

} // verus!
