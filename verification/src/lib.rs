use vstd::prelude::*;

pub mod app_message;
pub mod device;
pub mod engine;
pub mod errors;
pub mod frame;
pub mod hex;
pub mod invitation;
pub mod keystore;
pub mod session;
pub mod store;
pub mod use_cases;
pub mod wire;

verus! {

/// Orders an unordered device-id pair canonically: the smaller id first.
pub fn canonical_pair(a: u128, b: u128) -> (r: (u128, u128))
    ensures
        r == spec_canonical_pair(a, b),
{
    if a <= b {
        (a, b)
    } else {
        (b, a)
    }
}

/// The canonical form of an unordered device-id pair.
pub open spec fn spec_canonical_pair(a: u128, b: u128) -> (u128, u128) {
    if a <= b {
        (a, b)
    } else {
        (b, a)
    }
}

/// Canonical addressing is symmetric: both orderings of a pair map to the
/// same storage slot.
pub proof fn lemma_canonical_pair_symmetric(a: u128, b: u128)
    ensures
        spec_canonical_pair(a, b) == spec_canonical_pair(b, a),
{
}

} // verus!
