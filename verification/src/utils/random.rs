use vstd::prelude::*;

verus! {

/// Draws a number with `rand::random_range` from the half-open range
/// `low..high`. The crate returns a value of the range it is given and
/// panics on an empty one, which `requires` leaves out. Which value comes
/// back is up to the thread-local generator.
#[verifier::external_body]
pub(crate) fn random_in(low: u32, high: u32) -> (r: u32)
    requires
        low < high,
    ensures
        low <= r < high,
{
    rand::random_range(low..high)
}

/// Draws a truth value with `rand::random`. Nothing is known of it.
#[verifier::external_body]
pub(crate) fn random_flag() -> (b: bool)
{
    rand::random::<bool>()
}

} // verus!
