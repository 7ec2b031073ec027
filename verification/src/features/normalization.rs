//! Normalization of features. Values come as the bits of doubles, what they are normalized to as the
//! bits of singles.
use crate::doubles::{equal, ZERO};
use vstd::prelude::*;

verus! {

/// The bits of zero, in single precision.
pub const SINGLE_ZERO: u32 = 0;

/// Min-max normalization, for the share that a value has in its range: zero where the range is empty
pub fn min_max(min: u64, max: u64, share: u32) -> (r: u32)
    ensures
        r == if crate::doubles::same(max, min) {
            SINGLE_ZERO
        } else {
            share
        },
{
    if equal(max, min) {
        return SINGLE_ZERO;
    }
    share
}

/// Z-score normalization, for the distance of a value from the mean over the deviation: zero where
/// there is no deviation
pub fn z_score(std_dev: u64, distance: u32) -> (r: u32)
    ensures
        r == if crate::doubles::same(std_dev, ZERO) {
            SINGLE_ZERO
        } else {
            distance
        },
{
    if equal(std_dev, ZERO) {
        return SINGLE_ZERO;
    }
    distance
}

} // verus!
