use feedback_mixer::capture::capture_block;
use feedback_mixer::channel::{Channel, ChannelError};
use feedback_mixer::fault::Fault;
use feedback_mixer::sample::{saturate, SILENCE};

fn channel(capacity: usize) -> Channel {
    match Channel::new(capacity) {
        Ok(c) => c,
        Err(e) => panic!("no channel of capacity {}: {:?}", capacity, e),
    }
}

#[test]
fn new_channel_is_empty_with_its_capacity() {
    let c = channel(8);
    assert_eq!(c.capacity(), 8);
    assert_eq!(c.len(), 0);
    assert_eq!(c.free_len(), 8);
}

#[test]
fn zero_capacity_is_refused() {
    assert_eq!(Channel::new(0).err(), Some(ChannelError::ZeroCapacity));
}

#[test]
fn unobtainable_capacity_is_an_allocation_failure() {
    assert_eq!(Channel::new(usize::MAX).err(), Some(ChannelError::AllocationFailed));
}

#[test]
fn pushes_under_capacity_pop_in_order() {
    let mut c = channel(8);
    for x in [1, 2, 3, 4, 5] {
        assert!(c.push(x));
    }
    assert_eq!(c.len(), 5);
    assert_eq!(c.free_len(), 3);
    let mut popped = Vec::new();
    for _ in 0..5 {
        popped.push(c.pop());
    }
    assert_eq!(popped, vec![Some(1), Some(2), Some(3), Some(4), Some(5)]);
    assert_eq!(c.pop(), None);
    assert_eq!(c.len(), 0);
}

#[test]
fn pushes_over_capacity_drop_the_tail() {
    let mut c = channel(4);
    let mut dropped = 0;
    let mut outcomes = Vec::new();
    for x in [1, 2, 3, 4, 5, 6] {
        let queued = c.push(x);
        outcomes.push(queued);
        if !queued {
            dropped += 1;
        }
    }
    assert_eq!(dropped, 2);
    assert_eq!(outcomes, vec![true, true, true, true, false, false]);
    assert_eq!(c.len(), 4);
    let mut popped = Vec::new();
    for _ in 0..4 {
        popped.push(c.pop());
    }
    assert_eq!(popped, vec![Some(1), Some(2), Some(3), Some(4)]);
    assert_eq!(c.pop(), None);
}

#[test]
fn pop_on_empty_returns_none_and_changes_nothing() {
    let mut empty = channel(4);
    let mut other = channel(4);
    assert!(other.push(7));
    assert!(other.push(8));
    for _ in 0..10 {
        assert_eq!(empty.pop(), None);
        assert_eq!(empty.len(), 0);
        assert_eq!(empty.capacity(), 4);
    }
    assert_eq!(other.len(), 2);
    assert_eq!(other.pop(), Some(7));
    assert_eq!(other.pop(), Some(8));
    assert!(empty.push(9));
    assert_eq!(empty.pop(), Some(9));
}

#[test]
fn full_channel_hands_the_sample_back_unqueued() {
    let mut c = channel(1);
    assert!(c.push(11));
    assert!(!c.push(22));
    assert_eq!(c.len(), 1);
    assert_eq!(c.pop(), Some(11));
    assert_eq!(c.pop(), None);
}

#[test]
fn order_survives_wrapping_around_the_buffer() {
    let mut c = channel(3);
    assert!(c.push(1));
    assert!(c.push(2));
    assert!(c.push(3));
    assert_eq!(c.pop(), Some(1));
    assert!(c.push(4));
    assert!(!c.push(5));
    assert_eq!(c.pop(), Some(2));
    assert_eq!(c.pop(), Some(3));
    assert!(c.push(6));
    assert!(c.push(7));
    assert_eq!(c.len(), 3);
    assert_eq!(c.pop(), Some(4));
    assert_eq!(c.pop(), Some(6));
    assert_eq!(c.pop(), Some(7));
    assert_eq!(c.pop(), None);
}

#[test]
fn push_block_queues_what_fits() {
    let mut c = channel(4);
    assert!(c.push(9));
    assert_eq!(c.push_block(&[10, 20, 30, 40, 50]), 3);
    assert_eq!(c.len(), 4);
    assert_eq!(c.pop(), Some(9));
    assert_eq!(c.pop(), Some(10));
    assert_eq!(c.pop(), Some(20));
    assert_eq!(c.pop(), Some(30));
    assert_eq!(c.pop(), None);
}

#[test]
fn push_block_takes_a_whole_block_that_fits() {
    let mut c = channel(8);
    assert_eq!(c.push_block(&[1, 2, 3]), 3);
    assert_eq!(c.push_block(&[]), 0);
    assert_eq!(c.push_block(&[4, 5]), 2);
    assert_eq!(c.len(), 5);
    for x in 1..=5 {
        assert_eq!(c.pop(), Some(x));
    }
}

#[test]
fn push_block_on_a_full_channel_queues_nothing() {
    let mut c = channel(2);
    assert_eq!(c.push_block(&[1, 2]), 2);
    assert_eq!(c.push_block(&[3, 4, 5]), 0);
    assert_eq!(c.pop(), Some(1));
    assert_eq!(c.pop(), Some(2));
    assert_eq!(c.pop(), None);
}

#[test]
fn push_block_wraps_around_the_buffer() {
    let mut c = channel(4);
    assert_eq!(c.push_block(&[1, 2, 3]), 3);
    assert_eq!(c.pop(), Some(1));
    assert_eq!(c.pop(), Some(2));
    assert_eq!(c.push_block(&[4, 5, 6, 7]), 3);
    assert_eq!(c.pop(), Some(3));
    assert_eq!(c.pop(), Some(4));
    assert_eq!(c.pop(), Some(5));
    assert_eq!(c.pop(), Some(6));
    assert_eq!(c.pop(), None);
}

#[test]
fn primed_channel_pops_silence_then_nothing() {
    let mut c = channel(10);
    assert_eq!(c.prime(3), 3);
    assert_eq!(c.len(), 3);
    for _ in 0..3 {
        assert_eq!(c.pop(), Some(SILENCE));
    }
    assert_eq!(c.pop(), None);
}

#[test]
fn priming_stops_at_capacity() {
    let mut c = channel(2);
    assert_eq!(c.prime(5), 2);
    assert_eq!(c.len(), 2);
    assert_eq!(c.prime(1), 0);
}

#[test]
fn priming_queues_behind_what_is_there() {
    let mut c = channel(5);
    assert!(c.push(42));
    assert_eq!(c.prime(2), 2);
    assert_eq!(c.pop(), Some(42));
    assert_eq!(c.pop(), Some(0));
    assert_eq!(c.pop(), Some(0));
    assert_eq!(c.pop(), None);
}

#[test]
fn clear_discards_everything() {
    let mut c = channel(4);
    assert_eq!(c.push_block(&[1, 2, 3]), 3);
    c.clear();
    assert_eq!(c.len(), 0);
    assert_eq!(c.capacity(), 4);
    assert_eq!(c.pop(), None);
    assert!(c.push(5));
    assert_eq!(c.pop(), Some(5));
}

#[test]
fn capture_reports_accepted_and_dropped() {
    let mut c = channel(4);
    let report = capture_block(&mut c, &[1, 2, 3, 4, 5, 6]);
    assert_eq!(report.accepted, 4);
    assert_eq!(report.dropped, 2);
    assert!(report.overrun());
    assert_eq!(report.fault(), Some(Fault::ProducerOverrun));
    for x in 1..=4 {
        assert_eq!(c.pop(), Some(x));
    }
    assert_eq!(c.pop(), None);
}

#[test]
fn capture_without_loss_raises_no_flag() {
    let mut c = channel(8);
    let report = capture_block(&mut c, &[1, 2, 3]);
    assert_eq!(report.accepted, 3);
    assert_eq!(report.dropped, 0);
    assert!(!report.overrun());
    assert_eq!(report.fault(), None);
    let report = capture_block(&mut c, &[]);
    assert_eq!(report.accepted, 0);
    assert_eq!(report.dropped, 0);
    assert!(!report.overrun());
}

#[test]
fn capture_keeps_what_was_queued_before() {
    let mut c = channel(3);
    assert_eq!(capture_block(&mut c, &[1, 2]).dropped, 0);
    let report = capture_block(&mut c, &[3, 4, 5]);
    assert_eq!(report.accepted, 1);
    assert_eq!(report.dropped, 2);
    assert_eq!(c.pop(), Some(1));
    assert_eq!(c.pop(), Some(2));
    assert_eq!(c.pop(), Some(3));
    assert_eq!(c.pop(), None);
}

#[test]
fn saturate_keeps_what_fits_and_clips_the_rest() {
    assert_eq!(saturate(0), 0);
    assert_eq!(saturate(-17), -17);
    assert_eq!(saturate(i32::MAX as i128), i32::MAX);
    assert_eq!(saturate(i32::MIN as i128), i32::MIN);
    assert_eq!(saturate(i32::MAX as i128 + 1), i32::MAX);
    assert_eq!(saturate(i32::MIN as i128 - 1), i32::MIN);
    assert_eq!(saturate(i128::MAX), i32::MAX);
    assert_eq!(saturate(i128::MIN), i32::MIN);
}

#[test]
fn losing_samples_is_not_fatal_but_device_trouble_is() {
    assert!(!Fault::ProducerOverrun.is_fatal());
    assert!(!Fault::ConsumerUnderrun.is_fatal());
    assert!(Fault::ConfigurationMismatch.is_fatal());
    assert!(Fault::DeviceFault.is_fatal());
}

#[test]
fn each_fault_has_its_diagnostic_line() {
    assert_eq!(
        Fault::ProducerOverrun.diagnostic(),
        "output stream fell behind: try increasing latency"
    );
    assert_eq!(
        Fault::ConsumerUnderrun.diagnostic(),
        "input stream fell behind: try increasing latency"
    );
    assert_eq!(
        Fault::ConfigurationMismatch.diagnostic(),
        "streams do not share one configuration"
    );
    assert_eq!(Fault::DeviceFault.diagnostic(), "an error occurred on stream");
}
