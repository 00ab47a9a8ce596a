use vstd::prelude::*;

verus! {

/// Relies on rand::Rng::gen_range on the thread-local generator: for a
/// non-empty half-open range it returns a uniformly drawn value inside the
/// range. Nothing more is assumed of the draw.
#[verifier::external_body]
pub(crate) fn random_below(n: i64) -> (r: i64)
    requires
        1 <= n,
    ensures
        0 <= r < n,
{
    rand::Rng::gen_range(&mut rand::thread_rng(), 0..n)
}

} // verus!
