//! Samples: signed 32-bit PCM amplitudes, with silence as zero and sums
//! brought back into range by saturation.

use vstd::prelude::*;

verus! {

/// The amplitude that stands for "no signal".
pub const SILENCE: i32 = 0;

/// The nearest representable amplitude to an exact sum: the sum itself when
/// it fits, otherwise the bound it crossed.
pub open spec fn clamp_sample(v: int) -> int {
    if v < i32::MIN as int {
        i32::MIN as int
    } else if v > i32::MAX as int {
        i32::MAX as int
    } else {
        v
    }
}

/// A run of `n` silent samples.
pub open spec fn silence(n: nat) -> Seq<i32> {
    Seq::new(n, |i: int| SILENCE)
}

/// Narrows a wide accumulator to a sample, saturating at the bounds of the
/// sample range instead of wrapping.
pub fn saturate(v: i128) -> (s: i32)
    ensures
        s as int == clamp_sample(v as int),
{
    if v < i32::MIN as i128 {
        i32::MIN
    } else if v > i32::MAX as i128 {
        i32::MAX
    } else {
        v as i32
    }
}

} // verus!
