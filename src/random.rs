use vstd::prelude::*;

verus! {

/// Relies on `rand::random::<u8>` (the thread-local generator): any byte may come back.
#[verifier::external_body]
pub(crate) fn random_byte() -> (r: u8) {
    rand::random::<u8>()
}

} // verus!
