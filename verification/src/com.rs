//! Reference counts of shared objects.
use vstd::prelude::*;

verus! {

/// Takes one more reference and returns the new count.
pub fn interlocked_increment(count: &mut u32) -> (now: u32)
    requires
        *old(count) < u32::MAX,
    ensures
        *final(count) == *old(count) + 1,
        now == *final(count),
{
    *count = *count + 1;
    *count
}

/// Gives one reference back and returns the new count; at 0 the object is to be freed.
pub fn interlocked_decrement(count: &mut u32) -> (now: u32)
    requires
        *old(count) > 0,
    ensures
        *final(count) == *old(count) - 1,
        now == *final(count),
{
    *count = *count - 1;
    *count
}

} // verus!
