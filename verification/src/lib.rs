//! Sample transport for live audio feedback: bounded per-source channels,
//! a latency primer, a capture adapter and a saturating N-source mixer.
//!
//! Samples are signed 32-bit PCM. Each capture source has a [`channel::Channel`]
//! of fixed capacity; a [`pipeline::Pipeline`] owns the channels of all
//! sources, primes them with silence, and moves samples while it runs:
//! [`pipeline::Pipeline::capture`] queues a captured block, dropping what
//! does not fit, and [`pipeline::Pipeline::playback`] fills an output block
//! with the saturated sum of the sources, position by position, putting
//! silence in the place of a source that has run dry. Neither ever waits.
//!
//! A pipeline has one owner. Code that drives it from several threads has
//! to pass that ownership around itself.

pub mod capture;
pub mod channel;
pub mod fault;
pub mod latency;
pub mod mixer;
pub mod pipeline;
pub mod ring;
pub mod sample;
