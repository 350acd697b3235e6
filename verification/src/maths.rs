use vstd::prelude::*;

verus! {

/// Restricts `input` to the interval `[min, max]`.
///
/// When `min > max` the bound that is checked first wins, exactly as the
/// chain of comparisons below reads.
pub fn clamp(input: u64, min: u64, max: u64) -> (r: u64)
    ensures
        r == if input < min {
            min
        } else if input > max {
            max
        } else {
            input
        },
{
    if input < min {
        return min;
    }

    if input > max {
        return max;
    }

    input
}

} // verus!
