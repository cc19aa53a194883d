//! The pipeline: the fixed registry of source channels together with the
//! lifecycle that decides when samples move.
//!
//! A pipeline is created for a list of sources that share one stream
//! configuration, primed once with silence, started, and finally stopped.
//! Capture and playback move samples only while it is running.

use crate::capture::{capture_block, CaptureReport};
use crate::channel::{drained, fitting, Channel};
use crate::fault::Fault;
use crate::latency::{
    channel_capacity, latency_samples, primer_len, StreamConfig, MIN_CAPACITY_MULTIPLIER,
};
use crate::mixer::{mix_block, mixed_sample, queues_of, starved, MixReport};
use crate::sample::{silence, SILENCE};
use vstd::prelude::*;

verus! {

/// Where a pipeline is in its life. The order of the variants is the only
/// order in which they are passed through, and `Stopped` is never left.
#[derive(Clone, Copy, Debug, PartialEq, Eq, Structural)]
pub enum PipelineState {
    /// Created; the channels are empty.
    Uninitialized,
    /// Every channel holds the latency primer; streams are not playing yet.
    Primed,
    /// Capture and playback are moving samples.
    Running,
    /// Terminal: the channels are discarded and nothing moves any more.
    Stopped,
}

/// Why a pipeline operation was refused.
#[derive(Clone, Copy, Debug, PartialEq, Eq, Structural)]
pub enum PipelineError {
    /// A pipeline needs at least one source.
    NoSources,
    /// The sources do not all share one stream configuration.
    ConfigurationMismatch,
    /// The capacity multiplier leaves no headroom beyond the primer.
    HeadroomTooSmall,
    /// The latency target comes to no samples at all, or to more than a
    /// channel can be sized for.
    LatencyOutOfRange,
    /// The memory for the channels could not be had.
    AllocationFailed,
    /// The operation does not apply in the pipeline's current state.
    WrongState,
    /// No source is registered under the given index.
    UnknownSource,
}

/// Whether every source has the configuration of the first.
pub open spec fn uniform(configs: Seq<StreamConfig>) -> bool {
    forall|j: int| 0 <= j < configs.len() ==> #[trigger] configs[j] == configs[0]
}

/// The reason, if any, for which a setup is refused before any memory is
/// asked for. The checks are listed in the order in which they are made.
pub open spec fn setup_refusal(
    configs: Seq<StreamConfig>,
    latency_ms: u32,
    multiplier: usize,
) -> Option<PipelineError> {
    if configs.len() == 0 {
        Some(PipelineError::NoSources)
    } else if !uniform(configs) {
        Some(PipelineError::ConfigurationMismatch)
    } else if multiplier < MIN_CAPACITY_MULTIPLIER {
        Some(PipelineError::HeadroomTooSmall)
    } else if latency_samples(configs[0], latency_ms) == 0 || latency_samples(
        configs[0],
        latency_ms,
    ) * multiplier > usize::MAX {
        Some(PipelineError::LatencyOutOfRange)
    } else {
        None
    }
}

/// `sources` queues that each hold `q`.
pub open spec fn all_holding(sources: nat, q: Seq<i32>) -> Seq<Seq<i32>> {
    Seq::new(sources, |j: int| q)
}

/// The queues after `slots` samples were taken from each.
pub open spec fn all_drained(queues: Seq<Seq<i32>>, slots: nat) -> Seq<Seq<i32>> {
    Seq::new(queues.len(), |j: int| drained(queues[j], slots))
}

/// A fixed registry of source channels and the state of their streams.
pub struct Pipeline {
    channels: Vec<Channel>,
    primer: usize,
    capacity: usize,
    state: PipelineState,
}

impl Pipeline {
    /// What each source's channel holds, in registry order.
    pub closed spec fn queues(&self) -> Seq<Seq<i32>> {
        queues_of(self.channels@)
    }

    /// The lifecycle state.
    pub closed spec fn spec_state(&self) -> PipelineState {
        self.state
    }

    /// The number of silent samples that priming puts into each channel.
    pub closed spec fn spec_primer(&self) -> nat {
        self.primer as nat
    }

    /// The capacity of each channel.
    pub closed spec fn spec_capacity(&self) -> nat {
        self.capacity as nat
    }

    /// The number of registered sources.
    pub open spec fn spec_sources(&self) -> nat {
        self.queues().len()
    }

    /// The invariant of a pipeline: every channel has the pipeline's
    /// capacity, which is at least twice the primer; no channel holds more
    /// than that; and before priming and after stopping every channel is
    /// empty.
    pub closed spec fn wf(&self) -> bool {
        &&& self.channels@.len() > 0
        &&& self.capacity >= 2 * self.primer
        &&& forall|j: int|
            0 <= j < self.channels@.len() ==> (#[trigger] self.channels@[j]).spec_capacity()
                == self.capacity && self.channels@[j]@.len() <= self.capacity
        &&& (self.state is Uninitialized || self.state is Stopped) ==> forall|j: int|
            0 <= j < self.channels@.len() ==> (#[trigger] self.channels@[j])@.len() == 0
    }

    /// Whether `other` has the sources, primer and capacity of `self`.
    pub open spec fn same_setup(&self, other: &Pipeline) -> bool {
        &&& self.spec_sources() == other.spec_sources()
        &&& self.spec_primer() == other.spec_primer()
        &&& self.spec_capacity() == other.spec_capacity()
    }

    /// Creates a pipeline with one empty channel per entry of `configs`.
    /// Each channel is sized to `multiplier` times the primer length that
    /// `latency_ms` comes to under the shared configuration.
    pub fn new(configs: &[StreamConfig], latency_ms: u32, multiplier: usize) -> (r: Result<
        Pipeline,
        PipelineError,
    >)
        ensures
            setup_refusal(configs@, latency_ms, multiplier) matches Some(reason) ==> (r matches Err(
                e,
            ) && e == reason),
            setup_refusal(configs@, latency_ms, multiplier) is None ==> r is Ok || (r matches Err(e)
                && e == PipelineError::AllocationFailed),
            r matches Ok(p) ==> {
                &&& p.wf()
                &&& p.spec_state() == PipelineState::Uninitialized
                &&& p.queues() == all_holding(configs@.len(), Seq::<i32>::empty())
                &&& p.spec_primer() == latency_samples(configs@[0], latency_ms)
                &&& p.spec_capacity() == p.spec_primer() * multiplier
                &&& p.spec_capacity() >= 2 * p.spec_primer()
            },
    {
        let sources = configs.len();
        if sources == 0 {
            return Err(PipelineError::NoSources);
        }
        let shared = configs[0];
        let mut k: usize = 1;
        while k < sources
            invariant
                1 <= k <= sources,
                sources == configs@.len(),
                shared == configs@[0],
                forall|j: int| 0 <= j < k ==> #[trigger] configs@[j] == configs@[0],
            decreases sources - k,
        {
            if configs[k] != shared {
                return Err(PipelineError::ConfigurationMismatch);
            }
            k = k + 1;
        }
        if multiplier < MIN_CAPACITY_MULTIPLIER {
            return Err(PipelineError::HeadroomTooSmall);
        }
        let primer = match primer_len(shared, latency_ms) {
            Some(n) => n,
            None => {
                assert(latency_samples(shared, latency_ms) * multiplier > usize::MAX)
                    by (nonlinear_arith)
                    requires
                        latency_samples(shared, latency_ms) > usize::MAX,
                        multiplier >= 2,
                ;
                return Err(PipelineError::LatencyOutOfRange);
            },
        };
        if primer == 0 {
            return Err(PipelineError::LatencyOutOfRange);
        }
        let capacity = match channel_capacity(primer, multiplier) {
            Some(n) => n,
            None => {
                return Err(PipelineError::LatencyOutOfRange);
            },
        };
        assert(capacity >= 2 * primer) by (nonlinear_arith)
            requires
                capacity == primer * multiplier,
                multiplier >= 2,
        ;
        assert(capacity > 0);
        assert(setup_refusal(configs@, latency_ms, multiplier) is None);
        let mut channels: Vec<Channel> = Vec::new();
        let mut made: usize = 0;
        while made < sources
            invariant
                made <= sources,
                capacity > 0,
                setup_refusal(configs@, latency_ms, multiplier) is None,
                channels@.len() == made,
                forall|j: int|
                    0 <= j < made ==> (#[trigger] channels@[j])@.len() == 0
                        && channels@[j].spec_capacity() == capacity,
            decreases sources - made,
        {
            match Channel::new(capacity) {
                Ok(channel) => {
                    channels.push(channel);
                },
                Err(_) => {
                    return Err(PipelineError::AllocationFailed);
                },
            }
            made = made + 1;
        }
        let pipeline = Pipeline { channels, primer, capacity, state: PipelineState::Uninitialized };
        assert(pipeline.queues() =~~= all_holding(configs@.len(), Seq::<i32>::empty()));
        Ok(pipeline)
    }

    /// The lifecycle state.
    pub fn state(&self) -> (s: PipelineState)
        ensures
            s == self.spec_state(),
    {
        self.state
    }

    /// The number of registered sources.
    pub fn sources(&self) -> (n: usize)
        ensures
            n == self.spec_sources(),
    {
        self.channels.len()
    }

    /// The number of silent samples that priming puts into each channel.
    pub fn primer(&self) -> (n: usize)
        ensures
            n == self.spec_primer(),
    {
        self.primer
    }

    /// The capacity of each channel.
    pub fn capacity(&self) -> (n: usize)
        ensures
            n == self.spec_capacity(),
    {
        self.capacity
    }

    /// The number of samples waiting in the channel of `source`, or `None`
    /// when no such source is registered.
    pub fn queued(&self, source: usize) -> (r: Option<usize>)
        ensures
            source < self.spec_sources() ==> r == Some(self.queues()[source as int].len() as usize),
            source < self.spec_sources() ==> self.queues()[source as int].len() <= usize::MAX,
            source >= self.spec_sources() ==> r is None,
    {
        if source < self.channels.len() {
            Some(self.channels[source].len())
        } else {
            None
        }
    }

    /// Puts the latency primer into every channel: `Uninitialized` becomes
    /// `Primed`. Refused in any other state, which it leaves untouched.
    pub fn prime(&mut self) -> (r: Result<(), PipelineError>)
        requires
            old(self).wf(),
        ensures
            final(self).wf(),
            final(self).same_setup(old(self)),
            old(self).spec_state() is Uninitialized ==> {
                &&& r is Ok
                &&& final(self).spec_state() == PipelineState::Primed
                &&& final(self).queues() == all_holding(
                    old(self).spec_sources(),
                    silence(old(self).spec_primer()),
                )
            },
            !(old(self).spec_state() is Uninitialized) ==> {
                &&& r matches Err(e) && e == PipelineError::WrongState
                &&& final(self).spec_state() == old(self).spec_state()
                &&& final(self).queues() == old(self).queues()
            },
    {
        match self.state {
            PipelineState::Uninitialized => {},
            _ => {
                return Err(PipelineError::WrongState);
            },
        }
        let sources = self.channels.len();
        let mut j: usize = 0;
        while j < sources
            invariant
                j <= sources,
                sources == self.channels@.len(),
                sources == old(self).channels@.len(),
                self.primer == old(self).primer,
                self.capacity == old(self).capacity,
                self.capacity >= 2 * self.primer,
                forall|m: int|
                    0 <= m < sources ==> (#[trigger] self.channels@[m]).spec_capacity()
                        == self.capacity,
                forall|m: int|
                    0 <= m < j ==> (#[trigger] self.channels@[m])@ == silence(self.primer as nat),
                forall|m: int| j <= m < sources ==> (#[trigger] self.channels@[m])@.len() == 0,
            decreases sources - j,
        {
            let ghost before = self.channels@;
            let count = self.primer;
            let _ = self.channels[j].prime(count);
            proof {
                assert(self.channels@ == before.update(j as int, self.channels@[j as int]));
                assert(before[j as int]@.len() == 0);
                assert(self.channels@[j as int]@ =~= silence(self.primer as nat));
            }
            j = j + 1;
        }
        self.state = PipelineState::Primed;
        assert(self.queues() =~= all_holding(
            old(self).spec_sources(),
            silence(old(self).spec_primer()),
        ));
        Ok(())
    }

    /// Lets samples move: `Primed` becomes `Running`. Refused in any other
    /// state. The channels are not touched either way.
    pub fn start(&mut self) -> (r: Result<(), PipelineError>)
        requires
            old(self).wf(),
        ensures
            final(self).wf(),
            final(self).same_setup(old(self)),
            final(self).queues() == old(self).queues(),
            old(self).spec_state() is Primed ==> r is Ok && final(self).spec_state()
                == PipelineState::Running,
            !(old(self).spec_state() is Primed) ==> (r matches Err(e) && e
                == PipelineError::WrongState) && final(self).spec_state() == old(self).spec_state(),
    {
        match self.state {
            PipelineState::Primed => {
                self.state = PipelineState::Running;
                Ok(())
            },
            _ => Err(PipelineError::WrongState),
        }
    }

    /// Ends the pipeline from any state: the state becomes `Stopped` and
    /// whatever the channels hold is discarded.
    pub fn stop(&mut self)
        requires
            old(self).wf(),
        ensures
            final(self).wf(),
            final(self).same_setup(old(self)),
            final(self).spec_state() == PipelineState::Stopped,
            final(self).queues() == all_holding(old(self).spec_sources(), Seq::<i32>::empty()),
    {
        let sources = self.channels.len();
        let mut j: usize = 0;
        while j < sources
            invariant
                j <= sources,
                sources == self.channels@.len(),
                sources == old(self).channels@.len(),
                self.primer == old(self).primer,
                self.capacity == old(self).capacity,
                self.capacity >= 2 * self.primer,
                forall|m: int|
                    0 <= m < sources ==> (#[trigger] self.channels@[m]).spec_capacity()
                        == self.capacity,
                forall|m: int| 0 <= m < j ==> (#[trigger] self.channels@[m])@.len() == 0,
            decreases sources - j,
        {
            let ghost before = self.channels@;
            self.channels[j].clear();
            proof {
                assert(self.channels@ == before.update(j as int, self.channels@[j as int]));
            }
            j = j + 1;
        }
        self.state = PipelineState::Stopped;
        assert(self.queues() =~~= all_holding(old(self).spec_sources(), Seq::<i32>::empty()));
    }

    /// The sink for a signalled condition. A fatal one ends the pipeline
    /// exactly as `stop` does; one that is not fatal changes nothing: the
    /// pipeline goes on, and nothing is retried.
    pub fn raise(&mut self, fault: Fault)
        requires
            old(self).wf(),
        ensures
            final(self).wf(),
            final(self).same_setup(old(self)),
            fault.spec_is_fatal() ==> {
                &&& final(self).spec_state() == PipelineState::Stopped
                &&& final(self).queues() == all_holding(
                    old(self).spec_sources(),
                    Seq::<i32>::empty(),
                )
            },
            !fault.spec_is_fatal() ==> {
                &&& final(self).spec_state() == old(self).spec_state()
                &&& final(self).queues() == old(self).queues()
            },
    {
        if fault.is_fatal() {
            self.stop();
        }
    }

    /// What the invariant gives: the channels leave headroom of at least
    /// the primer's length beyond the primer, and no channel holds more
    /// than its capacity.
    pub proof fn lemma_bounds(&self)
        requires
            self.wf(),
        ensures
            self.spec_sources() > 0,
            self.spec_capacity() >= 2 * self.spec_primer(),
            forall|j: int|
                0 <= j < self.spec_sources() ==> (#[trigger] self.queues()[j]).len()
                    <= self.spec_capacity(),
            self.spec_state() is Uninitialized || self.spec_state() is Stopped ==> self.queues()
                == all_holding(self.spec_sources(), Seq::<i32>::empty()),
    {
        if self.spec_state() is Uninitialized || self.spec_state() is Stopped {
            assert(self.queues() =~~= all_holding(self.spec_sources(), Seq::<i32>::empty()));
        }
    }

    /// The capture adapter of source `source`: queues a captured block into
    /// that source's channel and touches no other. Samples move only while
    /// the pipeline is running.
    pub fn capture(&mut self, source: usize, block: &[i32]) -> (r: Result<
        CaptureReport,
        PipelineError,
    >)
        requires
            old(self).wf(),
        ensures
            final(self).wf(),
            final(self).same_setup(old(self)),
            final(self).spec_state() == old(self).spec_state(),
            !(old(self).spec_state() is Running) ==> (r matches Err(e) && e
                == PipelineError::WrongState) && final(self).queues() == old(self).queues(),
            old(self).spec_state() is Running && source >= old(self).spec_sources() ==> (
            r matches Err(e) && e == PipelineError::UnknownSource) && final(self).queues() == old(
                self,
            ).queues(),
            old(self).spec_state() is Running && source < old(self).spec_sources() ==> {
                &&& r matches Ok(report)
                &&& report.accepted == fitting(
                    old(self).queues()[source as int].len(),
                    old(self).spec_capacity(),
                    block@.len(),
                )
                &&& report.accepted + report.dropped == block@.len()
                &&& final(self).queues() == old(self).queues().update(
                    source as int,
                    old(self).queues()[source as int] + block@.take(report.accepted as int),
                )
            },
    {
        match self.state {
            PipelineState::Running => {},
            _ => {
                return Err(PipelineError::WrongState);
            },
        }
        if source >= self.channels.len() {
            return Err(PipelineError::UnknownSource);
        }
        let ghost before = self.channels@;
        let report = capture_block(&mut self.channels[source], block);
        proof {
            assert(self.channels@ == before.update(source as int, self.channels@[source as int]));
            assert(self.queues() =~= old(self).queues().update(
                source as int,
                old(self).queues()[source as int] + block@.take(report.accepted as int),
            ));
        }
        Ok(report)
    }

    /// The playback adapter: fills `out` with the mix of all sources while
    /// the pipeline is running. In any other state no channel is touched and
    /// `out` is filled with silence.
    pub fn playback(&mut self, out: &mut [i32]) -> (r: Result<MixReport, PipelineError>)
        requires
            old(self).wf(),
        ensures
            final(self).wf(),
            final(self).same_setup(old(self)),
            final(self).spec_state() == old(self).spec_state(),
            final(out)@.len() == old(out)@.len(),
            old(self).spec_state() is Running ==> {
                &&& r matches Ok(report)
                &&& report.underrun == starved(old(self).queues(), old(out)@.len())
                &&& forall|i: int|
                    0 <= i < old(out)@.len() ==> (#[trigger] final(out)@[i]) as int
                        == mixed_sample(old(self).queues(), i)
                &&& final(self).queues() == all_drained(old(self).queues(), old(out)@.len())
            },
            !(old(self).spec_state() is Running) ==> {
                &&& r matches Err(e) && e == PipelineError::WrongState
                &&& final(out)@ == silence(old(out)@.len())
                &&& final(self).queues() == old(self).queues()
            },
    {
        match self.state {
            PipelineState::Running => {},
            _ => {
                let slots = out.len();
                let mut i: usize = 0;
                while i < slots
                    invariant
                        i <= slots,
                        slots == out@.len(),
                        forall|k: int| 0 <= k < i ==> #[trigger] out@[k] == SILENCE,
                    decreases slots - i,
                {
                    out[i] = SILENCE;
                    i = i + 1;
                }
                assert(out@ =~= silence(old(out)@.len()));
                return Err(PipelineError::WrongState);
            },
        }
        let report = mix_block(&mut self.channels, out);
        proof {
            assert(self.queues() =~= all_drained(old(self).queues(), old(out)@.len()));
        }
        Ok(report)
    }
}

} // verus!
