//! What the library takes from chance: random indices and fresh identifiers.
//! Nothing here is proved; the contracts say what holds of every outcome.
use rand::Rng;
use vstd::prelude::*;

verus! {

/// `rand::Rng::gen_range` over `0..bound`, on the generator of
/// `rand::thread_rng`. The call panics on an empty range, so `bound` must be
/// positive; what comes back lies in the range.
#[verifier::external_body]
pub(crate) fn random_index(bound: usize) -> (index: usize)
    requires
        bound > 0,
    ensures
        index < bound,
{
    rand::thread_rng().gen_range(0..bound)
}

/// `uuid::Uuid::new_v4` written out by `to_string`: the hyphenated form, which
/// is 36 characters long.
#[verifier::external_body]
pub(crate) fn fresh_id() -> (id: String)
    ensures
        id@.len() == 36,
{
    uuid::Uuid::new_v4().to_string()
}

} // verus!
