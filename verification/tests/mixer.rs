use feedback_mixer::channel::Channel;
use feedback_mixer::fault::Fault;
use feedback_mixer::mixer::mix_block;

fn source(capacity: usize, samples: &[i32]) -> Channel {
    let mut c = match Channel::new(capacity) {
        Ok(c) => c,
        Err(e) => panic!("no channel of capacity {}: {:?}", capacity, e),
    };
    assert_eq!(c.push_block(samples), samples.len());
    c
}

#[test]
fn two_sources_are_summed_slot_by_slot() {
    let mut sources = vec![source(8, &[1, 2, 3]), source(8, &[10, 20, 30])];
    let mut out = [99; 3];
    let report = mix_block(&mut sources, &mut out);
    assert_eq!(out, [11, 22, 33]);
    assert!(!report.underrun);
    assert_eq!(report.fault(), None);
    assert_eq!(sources[0].len(), 0);
    assert_eq!(sources[1].len(), 0);
}

#[test]
fn sum_saturates_only_where_it_does_not_fit() {
    let mut sources = vec![
        source(4, &[i32::MAX, i32::MIN, i32::MAX, 5]),
        source(4, &[1, -1, -1, 6]),
    ];
    let mut out = [0; 4];
    let report = mix_block(&mut sources, &mut out);
    assert_eq!(out, [i32::MAX, i32::MIN, i32::MAX - 1, 11]);
    assert!(!report.underrun);
}

#[test]
fn sum_is_exact_before_it_is_narrowed() {
    let mut sources = vec![
        source(2, &[i32::MAX, i32::MIN]),
        source(2, &[i32::MAX, i32::MIN]),
        source(2, &[-i32::MAX, i32::MAX]),
    ];
    let mut out = [0; 2];
    mix_block(&mut sources, &mut out);
    assert_eq!(out, [i32::MAX, i32::MIN]);
}

#[test]
fn empty_source_contributes_silence() {
    let mut sources = vec![source(8, &[5, 6]), source(8, &[])];
    let mut out = [0; 2];
    let report = mix_block(&mut sources, &mut out);
    assert_eq!(out, [5, 6]);
    assert!(report.underrun);
    assert_eq!(report.fault(), Some(Fault::ConsumerUnderrun));
}

#[test]
fn source_running_dry_mid_block_contributes_silence_from_there() {
    let mut sources = vec![source(8, &[1, 2, 3, 4]), source(8, &[10, 20])];
    let mut out = [0; 4];
    let report = mix_block(&mut sources, &mut out);
    assert_eq!(out, [11, 22, 3, 4]);
    assert!(report.underrun);
}

#[test]
fn all_sources_dry_gives_silence() {
    let mut sources = vec![source(4, &[]), source(4, &[])];
    let mut out = [7; 3];
    let report = mix_block(&mut sources, &mut out);
    assert_eq!(out, [0, 0, 0]);
    assert!(report.underrun);
}

#[test]
fn single_source_passes_through() {
    let mut sources = vec![source(8, &[i32::MIN, -3, 0, 4, i32::MAX])];
    let mut out = [0; 5];
    let report = mix_block(&mut sources, &mut out);
    assert_eq!(out, [i32::MIN, -3, 0, 4, i32::MAX]);
    assert!(!report.underrun);
}

#[test]
fn no_sources_give_silence_without_underrun() {
    let mut sources: Vec<Channel> = Vec::new();
    let mut out = [7; 3];
    let report = mix_block(&mut sources, &mut out);
    assert_eq!(out, [0, 0, 0]);
    assert!(!report.underrun);
}

#[test]
fn mixer_takes_one_sample_per_slot_and_leaves_the_rest() {
    let mut sources = vec![source(8, &[1, 2, 3, 4, 5]), source(8, &[10, 20, 30])];
    let mut out = [0; 2];
    let report = mix_block(&mut sources, &mut out);
    assert_eq!(out, [11, 22]);
    assert!(!report.underrun);
    assert_eq!(sources[0].len(), 3);
    assert_eq!(sources[1].len(), 1);
    let report = mix_block(&mut sources, &mut out);
    assert_eq!(out, [33, 4]);
    assert!(report.underrun);
    assert_eq!(sources[0].len(), 1);
    assert_eq!(sources[0].pop(), Some(5));
    assert_eq!(sources[1].len(), 0);
}

#[test]
fn empty_block_takes_nothing() {
    let mut sources = vec![source(8, &[1, 2]), source(8, &[])];
    let mut out: [i32; 0] = [];
    let report = mix_block(&mut sources, &mut out);
    assert!(!report.underrun);
    assert_eq!(sources[0].len(), 2);
    assert_eq!(sources[1].len(), 0);
}

#[test]
fn order_of_capture_does_not_change_the_mix() {
    let mut first = vec![source(8, &[]), source(8, &[])];
    assert_eq!(first[0].push_block(&[1, 2]), 2);
    assert_eq!(first[1].push_block(&[10, 20]), 2);
    let mut second = vec![source(8, &[]), source(8, &[])];
    assert_eq!(second[1].push_block(&[10]), 1);
    assert_eq!(second[0].push_block(&[1, 2]), 2);
    assert_eq!(second[1].push_block(&[20]), 1);
    let mut out_first = [0; 2];
    let mut out_second = [0; 2];
    mix_block(&mut first, &mut out_first);
    mix_block(&mut second, &mut out_second);
    assert_eq!(out_first, [11, 22]);
    assert_eq!(out_second, out_first);
}
