//! The capture adapter: what runs once per captured block, queueing the
//! block's samples into the channel of its source.

use crate::channel::{fitting, Channel};
use crate::fault::Fault;
use vstd::prelude::*;

verus! {

/// What one invocation of the capture adapter did with its block.
#[derive(Clone, Copy, Debug, PartialEq, Eq, Structural)]
pub struct CaptureReport {
    /// How many leading samples of the block were queued.
    pub accepted: usize,
    /// How many trailing samples of the block found the channel full and
    /// were dropped.
    pub dropped: usize,
}

impl CaptureReport {
    /// Whether the invocation lost samples. One flag for the whole block,
    /// however many samples were dropped.
    pub open spec fn spec_overrun(&self) -> bool {
        self.dropped > 0
    }

    /// Whether the invocation lost samples.
    #[verifier::when_used_as_spec(spec_overrun)]
    pub fn overrun(&self) -> (b: bool)
        ensures
            b == self.spec_overrun(),
    {
        self.dropped > 0
    }

    /// The condition that an invocation gives rise to: a producer overrun
    /// exactly when it lost samples, signalled once whatever their number.
    pub fn fault(&self) -> (f: Option<Fault>)
        ensures
            f == if self.spec_overrun() {
                Some(Fault::ProducerOverrun)
            } else {
                None
            },
    {
        if self.dropped > 0 {
            Some(Fault::ProducerOverrun)
        } else {
            None
        }
    }
}

/// Queues a captured block into `channel`. The samples that fit are appended
/// in order behind what the channel holds; the rest are dropped and counted.
/// Nothing already queued is removed or reordered. Never waits.
pub fn capture_block(channel: &mut Channel, block: &[i32]) -> (report: CaptureReport)
    ensures
        report.accepted == fitting(
            old(channel)@.len(),
            old(channel).spec_capacity(),
            block@.len(),
        ),
        report.accepted + report.dropped == block@.len(),
        final(channel)@ == old(channel)@ + block@.take(report.accepted as int),
        final(channel).spec_capacity() == old(channel).spec_capacity(),
{
    let accepted = channel.push_block(block);
    CaptureReport { accepted, dropped: block.len() - accepted }
}

} // verus!
