//! The one point where the core touches the host's source of randomness.
//!
//! Every randomized decision in the crate (aim scatter, template selection,
//! placement sampling, drop rolls) is built on a single bounded sample, so
//! that callers can be verified against the bound alone: nothing is assumed
//! about which value inside the bound comes back.

use vstd::prelude::*;

verus! {

/// Relies on `rand::Rng::gen_range` over `rand::thread_rng`: sampling a
/// non-empty inclusive range returns a value inside that range.
#[verifier::external_body]
pub(crate) fn sample_inclusive(lo: u64, hi: u64) -> (r: u64)
    requires
        lo <= hi,
    ensures
        lo <= r <= hi,
{
    rand::Rng::gen_range(&mut rand::thread_rng(), lo..=hi)
}

} // verus!
