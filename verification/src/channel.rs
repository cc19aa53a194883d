//! The bounded sample channel: a fixed-capacity FIFO queue of samples with
//! non-blocking `push` and `pop`.
//!
//! A channel is viewed as the sequence of samples it holds, oldest first.
//! The spec functions at the top of the file say what a push and a pop do to
//! such a sequence; the methods' contracts are stated over them.

use crate::ring::{
    ring_capacity, ring_capacity_of, ring_contents, ring_len, ring_pop, ring_push,
    ring_push_slice, ring_try_new, SampleRing,
};
use crate::sample::{silence, SILENCE};
use vstd::slice::slice_subrange;
use vstd::prelude::*;

verus! {

/// Whether a queue holding `q` with room for `cap` samples takes one more.
pub open spec fn accepts(q: Seq<i32>, cap: nat) -> bool {
    q.len() < cap
}

/// The queue after one sample is offered: appended when there is room,
/// dropped otherwise.
pub open spec fn offer(q: Seq<i32>, cap: nat, x: i32) -> Seq<i32> {
    if accepts(q, cap) {
        q.push(x)
    } else {
        q
    }
}

/// What a pop returns: the oldest sample, or nothing from an empty queue.
pub open spec fn front(q: Seq<i32>) -> Option<i32> {
    if q.len() > 0 {
        Some(q[0])
    } else {
        None
    }
}

/// The queue after a pop: without its oldest sample, or still empty.
pub open spec fn behind_front(q: Seq<i32>) -> Seq<i32> {
    if q.len() > 0 {
        q.skip(1)
    } else {
        q
    }
}

/// How many of `n` offered samples a queue of length `len` and capacity
/// `cap` takes: all of them, or as many as there is room for.
pub open spec fn fitting(len: nat, cap: nat, n: nat) -> nat {
    if len >= cap {
        0
    } else if n <= cap - len {
        n
    } else {
        (cap - len) as nat
    }
}

/// A queue after `slots` samples were taken from it, or all of them when it
/// held fewer.
pub open spec fn drained(q: Seq<i32>, slots: nat) -> Seq<i32> {
    if slots <= q.len() {
        q.skip(slots as int)
    } else {
        Seq::empty()
    }
}

/// The queue after the samples of `xs` are offered one by one, in order.
pub open spec fn offer_each(q: Seq<i32>, cap: nat, xs: Seq<i32>) -> Seq<i32>
    decreases xs.len(),
{
    if xs.len() == 0 {
        q
    } else {
        offer_each(offer(q, cap, xs[0]), cap, xs.drop_first())
    }
}

/// How many of those offers find the queue full.
pub open spec fn refusals(q: Seq<i32>, cap: nat, xs: Seq<i32>) -> nat
    decreases xs.len(),
{
    if xs.len() == 0 {
        0
    } else {
        let now: nat = if accepts(q, cap) {
            0
        } else {
            1
        };
        now + refusals(offer(q, cap, xs[0]), cap, xs.drop_first())
    }
}

/// What `n` pops in a row return, in order.
pub open spec fn pop_each(q: Seq<i32>, n: nat) -> Seq<Option<i32>>
    decreases n,
{
    if n == 0 {
        Seq::empty()
    } else {
        seq![front(q)] + pop_each(behind_front(q), (n - 1) as nat)
    }
}

/// The queue after `n` pops in a row.
pub open spec fn behind_pops(q: Seq<i32>, n: nat) -> Seq<i32>
    decreases n,
{
    if n == 0 {
        q
    } else {
        behind_pops(behind_front(q), (n - 1) as nat)
    }
}

/// What the pop numbered `i`, counting from zero, returns when pops are made
/// in a row on the queue `q`.
pub open spec fn pop_result(q: Seq<i32>, i: int) -> Option<i32> {
    if 0 <= i < q.len() {
        Some(q[i])
    } else {
        None
    }
}

/// Why a channel could not be created.
#[derive(Clone, Copy, Debug, PartialEq, Eq, Structural)]
pub enum ChannelError {
    /// A channel must have room for at least one sample.
    ZeroCapacity,
    /// The memory for the requested capacity could not be had.
    AllocationFailed,
}

/// A bounded FIFO queue of samples with a capacity fixed at construction.
pub struct Channel {
    ring: SampleRing,
}

impl View for Channel {
    type V = Seq<i32>;

    closed spec fn view(&self) -> Seq<i32> {
        ring_contents(self.ring)
    }
}

impl Channel {
    /// The capacity the channel was created with.
    pub closed spec fn spec_capacity(&self) -> nat {
        ring_capacity(self.ring)
    }

    #[verifier::type_invariant]
    spec fn inv(&self) -> bool {
        &&& 0 < ring_capacity(self.ring)
        &&& ring_contents(self.ring).len() <= ring_capacity(self.ring)
    }

    /// Creates an empty channel with room for `capacity` samples.
    pub fn new(capacity: usize) -> (r: Result<Channel, ChannelError>)
        ensures
            capacity == 0 ==> (r matches Err(e) && e == ChannelError::ZeroCapacity),
            capacity > 0 ==> r is Ok || (r matches Err(e) && e == ChannelError::AllocationFailed),
            r matches Ok(c) ==> c@ == Seq::<i32>::empty() && c.spec_capacity() == capacity,
    {
        if capacity == 0 {
            return Err(ChannelError::ZeroCapacity);
        }
        match ring_try_new(capacity) {
            Ok(ring) => Ok(Channel { ring }),
            Err(_) => Err(ChannelError::AllocationFailed),
        }
    }

    /// The fixed capacity.
    pub fn capacity(&self) -> (n: usize)
        ensures
            n == self.spec_capacity(),
            n > 0,
    {
        proof {
            use_type_invariant(self);
        }
        ring_capacity_of(&self.ring)
    }

    /// The number of samples waiting in the channel.
    pub fn len(&self) -> (n: usize)
        ensures
            n == self@.len(),
            n <= self.spec_capacity(),
    {
        proof {
            use_type_invariant(self);
        }
        ring_len(&self.ring)
    }

    /// The number of samples the channel can still take.
    pub fn free_len(&self) -> (n: usize)
        ensures
            n == self.spec_capacity() - self@.len(),
    {
        self.capacity() - self.len()
    }

    /// Offers one sample. Returns `true` when it was queued and `false` when
    /// the channel was full and the sample was dropped; never waits.
    pub fn push(&mut self, sample: i32) -> (queued: bool)
        ensures
            queued == accepts(old(self)@, old(self).spec_capacity()),
            final(self)@ == offer(old(self)@, old(self).spec_capacity(), sample),
            final(self).spec_capacity() == old(self).spec_capacity(),
    {
        proof {
            use_type_invariant(&*self);
        }
        match ring_push(&mut self.ring, sample) {
            Ok(_) => true,
            Err(_) => false,
        }
    }

    /// Takes the oldest sample, or returns `None` from an empty channel and
    /// leaves it as it was; never waits.
    pub fn pop(&mut self) -> (r: Option<i32>)
        ensures
            r == front(old(self)@),
            final(self)@ == behind_front(old(self)@),
            final(self).spec_capacity() == old(self).spec_capacity(),
    {
        proof {
            use_type_invariant(&*self);
        }
        ring_pop(&mut self.ring)
    }

    /// Offers a block of samples in order. The leading samples that fit are
    /// queued behind what the channel already holds; the rest are dropped.
    /// Returns how many were queued; never waits.
    pub fn push_block(&mut self, block: &[i32]) -> (queued: usize)
        ensures
            queued == fitting(old(self)@.len(), old(self).spec_capacity(), block@.len()),
            final(self)@ == old(self)@ + block@.take(queued as int),
            final(self).spec_capacity() == old(self).spec_capacity(),
    {
        proof {
            use_type_invariant(&*self);
        }
        let free = self.free_len();
        let queued = if block.len() <= free {
            block.len()
        } else {
            free
        };
        let head = slice_subrange(block, 0, queued);
        ring_push_slice(&mut self.ring, head);
        queued
    }

    /// Queues up to `count` silent samples, stopping early only when the
    /// channel is full. Returns how many were queued.
    pub fn prime(&mut self, count: usize) -> (queued: usize)
        ensures
            queued == fitting(old(self)@.len(), old(self).spec_capacity(), count as nat),
            final(self)@ == old(self)@ + silence(queued as nat),
            final(self).spec_capacity() == old(self).spec_capacity(),
    {
        let free = self.free_len();
        let target = if count <= free {
            count
        } else {
            free
        };
        let mut queued: usize = 0;
        while queued < target
            invariant
                queued <= target,
                target <= old(self).spec_capacity() - old(self)@.len(),
                self.spec_capacity() == old(self).spec_capacity(),
                self@ == old(self)@ + silence(queued as nat),
            decreases target - queued,
        {
            let ghost before = self@;
            let taken = self.push(SILENCE);
            assert(taken);
            proof {
                assert(self@ == before.push(SILENCE));
                assert(silence((queued + 1) as nat) == silence(queued as nat).push(SILENCE));
            }
            queued = queued + 1;
        }
        queued
    }

    /// Discards every waiting sample.
    pub fn clear(&mut self)
        ensures
            final(self)@ == Seq::<i32>::empty(),
            final(self).spec_capacity() == old(self).spec_capacity(),
    {
        let mut left = self.len();
        while left > 0
            invariant
                left == self@.len(),
                self.spec_capacity() == old(self).spec_capacity(),
            decreases left,
        {
            let _ = self.pop();
            left = left - 1;
        }
    }
}

/// Offering samples one by one queues the leading samples that fit, in
/// their order, behind what was there, and refuses every sample after them:
/// the same as offering them as one block.
pub proof fn lemma_offer_each(q: Seq<i32>, cap: nat, xs: Seq<i32>)
    requires
        q.len() <= cap,
    ensures
        offer_each(q, cap, xs) == q + xs.take(fitting(q.len(), cap, xs.len()) as int),
        refusals(q, cap, xs) == xs.len() - fitting(q.len(), cap, xs.len()),
    decreases xs.len(),
{
    if xs.len() == 0 {
        assert(q + xs.take(0) =~= q);
    } else {
        let next = offer(q, cap, xs[0]);
        let rest = xs.drop_first();
        lemma_offer_each(next, cap, rest);
        let fit = fitting(q.len(), cap, xs.len());
        if accepts(q, cap) {
            assert(fitting(next.len(), cap, rest.len()) == fit - 1);
            assert(next + rest.take(fit - 1) =~= q + xs.take(fit as int));
        } else {
            assert(q + xs.take(0) =~= q);
            assert(next + rest.take(0) =~= q);
        }
    }
}

/// Pops in a row return the queued samples oldest first and then nothing,
/// and leave what is behind the samples they took.
pub proof fn lemma_pop_each(q: Seq<i32>, n: nat)
    ensures
        pop_each(q, n) == Seq::new(n, |i: int| pop_result(q, i)),
        behind_pops(q, n) == drained(q, n),
    decreases n,
{
    if n == 0 {
        assert(pop_each(q, n) =~= Seq::new(n, |i: int| pop_result(q, i)));
        assert(q.skip(0) =~= q);
    } else {
        let rest = behind_front(q);
        let m = (n - 1) as nat;
        lemma_pop_each(rest, m);
        assert forall|i: int| 0 <= i < n implies (#[trigger] pop_each(q, n)[i]) == pop_result(
            q,
            i,
        ) by {
            if i > 0 {
                assert(pop_each(q, n)[i] == pop_each(rest, m)[i - 1]);
                assert(pop_each(rest, m)[i - 1] == pop_result(rest, i - 1));
            }
        }
        assert(pop_each(q, n) =~= Seq::new(n, |i: int| pop_result(q, i)));
        assert(drained(rest, m) =~= drained(q, n));
    }
}

/// FIFO, lossless under capacity: when no more samples are pushed into an
/// empty channel than it has room for, none is refused, as many pops as
/// there were pushes return the pushed samples in order and value, and the
/// pop after them finds the channel empty.
pub proof fn lemma_fifo_lossless(cap: nat, xs: Seq<i32>)
    requires
        xs.len() <= cap,
    ensures
        refusals(Seq::empty(), cap, xs) == 0,
        offer_each(Seq::empty(), cap, xs) == xs,
        pop_each(xs, xs.len()) == Seq::new(xs.len(), |i: int| Some(xs[i])),
        front(behind_pops(xs, xs.len())) is None,
{
    lemma_offer_each(Seq::empty(), cap, xs);
    assert(Seq::<i32>::empty() + xs.take(xs.len() as int) =~= xs);
    lemma_pop_each(xs, xs.len());
    assert(Seq::new(xs.len(), |i: int| pop_result(xs, i)) =~= Seq::new(
        xs.len(),
        |i: int| Some(xs[i]),
    ));
}

/// Drop on overflow: when `k` more samples are pushed than the channel has
/// room for, exactly `k` pushes are refused, and what is queued behind the
/// earlier contents is the leading part of the pushed samples, in order.
pub proof fn lemma_overflow_drops(q: Seq<i32>, cap: nat, xs: Seq<i32>, k: nat)
    requires
        q.len() <= cap,
        xs.len() == (cap - q.len()) + k,
    ensures
        refusals(q, cap, xs) == k,
        offer_each(q, cap, xs) == q + xs.take(cap - q.len()),
        offer_each(q, cap, xs).len() == cap,
{
    lemma_offer_each(q, cap, xs);
}

/// Popping an empty channel returns nothing, however often, and leaves it
/// empty.
pub proof fn lemma_pop_on_empty(n: nat)
    ensures
        pop_each(Seq::empty(), n) == Seq::new(n, |i: int| None::<i32>),
        behind_pops(Seq::empty(), n) == Seq::<i32>::empty(),
{
    lemma_pop_each(Seq::empty(), n);
    assert(Seq::new(n, |i: int| pop_result(Seq::<i32>::empty(), i)) =~= Seq::new(
        n,
        |i: int| None::<i32>,
    ));
    assert(drained(Seq::<i32>::empty(), n) =~= Seq::<i32>::empty());
}

/// The latency primer: priming an empty channel with `p` samples, where the
/// channel has room for them, queues exactly `p` silent samples; the first
/// `p` pops then return silence and the pop after them finds the channel
/// empty.
pub proof fn lemma_primer_pops(cap: nat, p: nat)
    requires
        p <= cap,
    ensures
        fitting(0, cap, p) == p,
        pop_each(silence(p), p + 1) == Seq::new(
            p + 1,
            |i: int|
                if i < p {
                    Some(SILENCE)
                } else {
                    None
                },
        ),
        behind_pops(silence(p), p + 1) == Seq::<i32>::empty(),
{
    lemma_pop_each(silence(p), p + 1);
    assert(Seq::new(p + 1, |i: int| pop_result(silence(p), i)) =~= Seq::new(
        p + 1,
        |i: int|
            if i < p {
                Some(SILENCE)
            } else {
                None
            },
    ));
}

} // verus!
