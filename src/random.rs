//! Draws from the thread-local random generator.
use vstd::prelude::*;

verus! {

/// Relies on `rand::random::<u128>`, written as 32 lower-case hexadecimal
/// digits (zero padded): an identifier that is hard to guess.
#[verifier::external_body]
pub(crate) fn random_token() -> (r: String)
    ensures
        r@.len() == 32,
{
    format!("{:032x}", rand::random::<u128>())
}

} // verus!
