use vstd::prelude::*;
use rand::Rng;

verus! {

/// Relies on `rand::Rng::gen_range` over `rand::thread_rng()`: a value drawn
/// from the inclusive range `lo..=hi`. It panics on an empty range, which
/// `lo <= hi` rules out.
#[verifier::external_body]
pub(crate) fn draw_between(lo: i32, hi: i32) -> (r: i32)
    requires
        lo <= hi,
    ensures
        lo <= r <= hi,
{
    rand::thread_rng().gen_range(lo..=hi)
}

} // verus!
