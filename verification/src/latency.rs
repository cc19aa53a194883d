//! The latency target: how many samples of buffering a latency given in
//! milliseconds comes to, and how large a channel has to be to hold that
//! with headroom for jitter.

use vstd::prelude::*;

verus! {

/// The stream configuration that every participating device shares.
#[derive(Clone, Copy, Debug, PartialEq, Eq, Structural)]
pub struct StreamConfig {
    /// Frames per second.
    pub sample_rate: u32,
    /// Interleaved samples per frame.
    pub channels: u16,
}

/// The smallest capacity multiplier that leaves headroom beyond the primer.
pub const MIN_CAPACITY_MULTIPLIER: usize = 2;

/// The number of whole frames that pass in `latency_ms` milliseconds.
pub open spec fn latency_frames(config: StreamConfig, latency_ms: u32) -> nat {
    (config.sample_rate as nat * latency_ms as nat) / 1000
}

/// The number of interleaved samples that pass in `latency_ms` milliseconds:
/// the primer length for that latency.
pub open spec fn latency_samples(config: StreamConfig, latency_ms: u32) -> nat {
    latency_frames(config, latency_ms) * config.channels as nat
}

/// The primer length for a latency target, or `None` when it does not fit
/// in a `usize`.
pub fn primer_len(config: StreamConfig, latency_ms: u32) -> (r: Option<usize>)
    ensures
        r matches Some(n) ==> n == latency_samples(config, latency_ms),
        r is None <==> latency_samples(config, latency_ms) > usize::MAX,
{
    let rate = config.sample_rate as u64;
    let ms = latency_ms as u64;
    assert(rate * ms <= 0xFFFF_FFFF * 0xFFFF_FFFF) by (nonlinear_arith)
        requires
            rate <= 0xFFFF_FFFF,
            ms <= 0xFFFF_FFFF,
    ;
    let frames = (rate * ms) / 1000;
    let width = config.channels as u64;
    assert(frames * width <= 0xFFFF_FFFF_FFFF_FFFF * 0xFFFF) by (nonlinear_arith)
        requires
            frames <= 0xFFFF_FFFF_FFFF_FFFF,
            width <= 0xFFFF,
    ;
    let samples = frames as u128 * width as u128;
    if samples > usize::MAX as u128 {
        None
    } else {
        Some(samples as usize)
    }
}

/// The capacity of a channel that holds `multiplier` times the primer, or
/// `None` when that does not fit in a `usize`.
pub fn channel_capacity(primer: usize, multiplier: usize) -> (r: Option<usize>)
    ensures
        r matches Some(n) ==> n == primer * multiplier,
        r is None <==> primer * multiplier > usize::MAX,
{
    primer.checked_mul(multiplier)
}

} // verus!
