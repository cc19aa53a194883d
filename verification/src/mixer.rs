//! The mixer: fills a block of output slots by taking, for each slot, one
//! sample from every source channel and summing them.
//!
//! Sources are combined strictly by position: output slot `i` is the sum of
//! the `i`-th waiting sample of every channel. A channel that has run dry
//! contributes silence. The sum is exact and is narrowed to a sample only at
//! the end, saturating where it does not fit.

use crate::channel::{drained, Channel};
use crate::fault::Fault;
use crate::sample::{clamp_sample, saturate, SILENCE};
use vstd::prelude::*;

verus! {

/// The `i`-th waiting sample of a queue, or silence when the queue holds
/// fewer than `i + 1` samples.
pub open spec fn sample_at(q: Seq<i32>, i: int) -> int {
    if 0 <= i < q.len() {
        q[i] as int
    } else {
        SILENCE as int
    }
}

/// The exact sum, over all queues, of what each contributes to slot `i`.
pub open spec fn slot_sum(queues: Seq<Seq<i32>>, i: int) -> int
    decreases queues.len(),
{
    if queues.len() == 0 {
        0
    } else {
        slot_sum(queues.drop_last(), i) + sample_at(queues.last(), i)
    }
}

/// The sample written to output slot `i`: the exact sum, saturated.
pub open spec fn mixed_sample(queues: Seq<Seq<i32>>, i: int) -> int {
    clamp_sample(slot_sum(queues, i))
}

/// Whether some queue holds fewer than `slots` samples, so that filling
/// `slots` output slots has to substitute silence somewhere.
pub open spec fn starved(queues: Seq<Seq<i32>>, slots: nat) -> bool {
    exists|j: int| 0 <= j < queues.len() && (#[trigger] queues[j]).len() < slots
}

/// What each of a list of channels holds, in the order of the list.
pub open spec fn queues_of(channels: Seq<Channel>) -> Seq<Seq<i32>> {
    Seq::new(channels.len(), |j: int| channels[j]@)
}

/// What one invocation of the mixer has to say beyond the samples it wrote.
#[derive(Clone, Copy, Debug, PartialEq, Eq, Structural)]
pub struct MixReport {
    /// Set when at least one channel ran dry before the block was filled.
    /// Recorded once for the whole block, whatever the number of channels
    /// and slots concerned.
    pub underrun: bool,
}

impl MixReport {
    /// The condition that an invocation gives rise to: a consumer underrun
    /// exactly when some channel ran dry, signalled once for the block.
    pub fn fault(&self) -> (f: Option<Fault>)
        ensures
            f == if self.underrun {
                Some(Fault::ConsumerUnderrun)
            } else {
                None
            },
    {
        if self.underrun {
            Some(Fault::ConsumerUnderrun)
        } else {
            None
        }
    }
}

proof fn lemma_slot_sum_step(queues: Seq<Seq<i32>>, j: int, i: int)
    requires
        0 <= j < queues.len(),
    ensures
        slot_sum(queues.take(j + 1), i) == slot_sum(queues.take(j), i) + sample_at(queues[j], i),
{
    assert(queues.take(j + 1).drop_last() == queues.take(j));
}

/// Fills every slot of `out`, in order, with the saturated sum of one sample
/// from each channel, substituting silence for a channel that is empty.
/// Takes from each channel as many samples as there are slots, or all it
/// holds. Never waits and never fails: running dry is reported, not raised.
pub fn mix_block(channels: &mut Vec<Channel>, out: &mut [i32]) -> (report: MixReport)
    ensures
        final(out)@.len() == old(out)@.len(),
        forall|i: int|
            0 <= i < old(out)@.len() ==> (#[trigger] final(out)@[i]) as int == mixed_sample(
                queues_of(old(channels)@),
                i,
            ),
        final(channels)@.len() == old(channels)@.len(),
        forall|j: int|
            0 <= j < old(channels)@.len() ==> (#[trigger] final(channels)@[j])@ == drained(
                old(channels)@[j]@,
                old(out)@.len(),
            ) && final(channels)@[j].spec_capacity() == old(channels)@[j].spec_capacity(),
        report.underrun == starved(queues_of(old(channels)@), old(out)@.len()),
{
    let ghost start = queues_of(channels@);
    let ghost origin = channels@;
    let slots = out.len();
    let sources = channels.len();
    let mut underrun = false;
    let mut i: usize = 0;
    while i < slots
        invariant
            i <= slots,
            slots == out@.len(),
            sources == channels@.len(),
            origin.len() == sources,
            start == queues_of(origin),
            forall|k: int| 0 <= k < i ==> (#[trigger] out@[k]) as int == mixed_sample(start, k),
            forall|j: int|
                0 <= j < sources ==> (#[trigger] channels@[j])@ == drained(start[j], i as nat)
                    && channels@[j].spec_capacity() == origin[j].spec_capacity(),
            underrun == starved(start, i as nat),
        decreases slots - i,
    {
        let mut acc: i128 = 0;
        let mut j: usize = 0;
        while j < sources
            invariant
                i < slots,
                j <= sources,
                sources == channels@.len(),
                origin.len() == sources,
                start == queues_of(origin),
                forall|m: int|
                    0 <= m < j ==> (#[trigger] channels@[m])@ == drained(start[m], (i + 1) as nat),
                forall|m: int|
                    j <= m < sources ==> (#[trigger] channels@[m])@ == drained(start[m], i as nat),
                forall|m: int|
                    0 <= m < sources ==> (#[trigger] channels@[m]).spec_capacity()
                        == origin[m].spec_capacity(),
                acc as int == slot_sum(start.take(j as int), i as int),
                -(j as int) * 0x8000_0000 <= acc as int <= (j as int) * 0x8000_0000,
                underrun == (starved(start, i as nat) || starved(
                    start.take(j as int),
                    (i + 1) as nat,
                )),
            decreases sources - j,
        {
            let ghost before = channels@;
            let taken = channels[j].pop();
            proof {
                lemma_slot_sum_step(start, j as int, i as int);
                assert(channels@ == before.update(j as int, channels@[j as int]));
                assert(before[j as int]@ == drained(start[j as int], i as nat));
                assert(channels@[j as int]@ == drained(start[j as int], (i + 1) as nat));
                let wide = start.take(j + 1);
                let narrow = start.take(j as int);
                if starved(narrow, (i + 1) as nat) {
                    let w = choose|w: int| 0 <= w < narrow.len() && (#[trigger] narrow[w]).len() < i + 1;
                    assert(wide[w].len() < i + 1);
                }
                if start[j as int].len() < i + 1 {
                    assert(wide[j as int].len() < i + 1);
                }
                if starved(wide, (i + 1) as nat) {
                    let w = choose|w: int| 0 <= w < wide.len() && (#[trigger] wide[w]).len() < i + 1;
                    if w < j {
                        assert(narrow[w].len() < i + 1);
                    }
                }
            }
            match taken {
                Some(sample) => {
                    acc = acc + sample as i128;
                },
                None => {
                    underrun = true;
                },
            }
            j = j + 1;
        }
        proof {
            assert(start.take(sources as int) == start);
            if starved(start, i as nat) {
                let w = choose|w: int| 0 <= w < start.len() && (#[trigger] start[w]).len() < i;
                assert(start[w].len() < i + 1);
            }
        }
        out[i] = saturate(acc);
        i = i + 1;
    }
    MixReport { underrun }
}

/// With a single source the mixer passes its samples through unchanged.
pub proof fn lemma_single_source_passes_through(a: Seq<i32>, i: int)
    requires
        0 <= i < a.len(),
    ensures
        mixed_sample(seq![a], i) == a[i],
{
    let queues = seq![a];
    assert(queues.drop_last() =~= Seq::<Seq<i32>>::empty());
    assert(slot_sum(queues.drop_last(), i) == 0);
    assert(queues.last() == a);
}

/// The exact sum that two sources contribute to a slot is the sum of what
/// each contributes.
pub proof fn lemma_slot_sum_of_two(a: Seq<i32>, b: Seq<i32>, i: int)
    ensures
        slot_sum(seq![a, b], i) == sample_at(a, i) + sample_at(b, i),
{
    let queues = seq![a, b];
    assert(queues.drop_last() =~= seq![a]);
    assert(seq![a].drop_last() =~= Seq::<Seq<i32>>::empty());
    assert(slot_sum(seq![a].drop_last(), i) == 0);
    assert(seq![a].last() == a);
    assert(slot_sum(seq![a], i) == sample_at(a, i));
    assert(queues.last() == b);
    assert(slot_sum(queues, i) == slot_sum(queues.drop_last(), i) + sample_at(queues.last(), i));
}

/// Two sources that both hold a sample for every slot of a block mix
/// without an underrun, and each output slot is the sum of the two samples
/// at that position: exactly when the sum is representable, saturated at
/// the bound it crosses otherwise.
pub proof fn lemma_mix_of_two_sources(a: Seq<i32>, b: Seq<i32>, i: int)
    requires
        a.len() == b.len(),
        0 <= i < a.len(),
    ensures
        !starved(seq![a, b], a.len()),
        mixed_sample(seq![a, b], i) == clamp_sample(a[i] + b[i]),
        i32::MIN <= a[i] + b[i] <= i32::MAX ==> mixed_sample(seq![a, b], i) == a[i] + b[i],
        a[i] + b[i] > i32::MAX ==> mixed_sample(seq![a, b], i) == i32::MAX,
        a[i] + b[i] < i32::MIN ==> mixed_sample(seq![a, b], i) == i32::MIN,
{
    lemma_slot_sum_of_two(a, b, i);
    let queues = seq![a, b];
    assert forall|j: int| 0 <= j < queues.len() implies !((#[trigger] queues[j]).len() < a.len()) by {
        if j == 0 {
            assert(queues[j] == a);
        } else {
            assert(queues[j] == b);
        }
    }
}

/// Silence is the identity of mixing: where the second of two sources has
/// run dry and the first has not, the output slot is the first source's
/// sample, and the block is reported as an underrun.
pub proof fn lemma_silence_is_identity(a: Seq<i32>, b: Seq<i32>, i: int)
    requires
        0 <= i < a.len(),
        b.len() <= i,
    ensures
        mixed_sample(seq![a, b], i) == a[i],
        forall|slots: nat| i < slots ==> starved(seq![a, b], slots),
{
    lemma_slot_sum_of_two(a, b, i);
    let queues = seq![a, b];
    assert forall|slots: nat| i < slots implies starved(queues, slots) by {
        assert(queues[1] == b);
        assert(queues[1].len() < slots);
    }
}

} // verus!
