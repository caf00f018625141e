//! The one source of chance in the library.
use vstd::prelude::*;

verus! {

/// Relies on `rand::random_range` over `lo..hi`: a value drawn from the
/// thread-local generator that lies in `[lo, hi)`. It panics on an empty
/// range, which `requires` leaves out.
#[verifier::external_body]
pub(crate) fn random_in(lo: u64, hi: u64) -> (r: u64)
    requires
        lo < hi,
    ensures
        lo <= r < hi,
{
    rand::random_range(lo..hi)
}

} // verus!
