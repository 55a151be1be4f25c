use seqtools::extended::ExtendedIterator;
use seqtools::extract::Extract;
use seqtools::group_by::IdentityKey;
use seqtools::producer::{Producer, VecProducer};

fn producer(values: &[u64]) -> VecProducer<u64> {
    VecProducer::new(values.to_vec())
}

fn drain<T, P: Producer<T>>(mut p: P) -> Vec<T> {
    let mut out = Vec::new();
    while let Some(v) = p.next() {
        out.push(v);
    }
    out
}

#[test]
fn vec_producer_emits_in_order() {
    let mut p = producer(&[5, 6]);
    assert_eq!(p.next(), Some(5));
    assert_eq!(p.next(), Some(6));
    assert_eq!(p.next(), None);
    assert_eq!(p.next(), None);
}

#[test]
fn cycle_of_one_two_three_pulled_seven_times() {
    let mut cycle = producer(&[1, 2, 3]).lazy_cycle();
    let mut out = Vec::new();
    for _ in 0..7 {
        out.push(cycle.next().unwrap());
    }
    assert_eq!(out, vec![1, 2, 3, 1, 2, 3, 1]);
}

#[test]
fn cycle_of_empty_yields_nothing() {
    let mut cycle = producer(&[]).lazy_cycle();
    assert_eq!(cycle.next(), None);
    assert_eq!(cycle.next(), None);
}

#[test]
fn cycle_of_singleton_repeats_it() {
    let mut cycle = producer(&[9]).lazy_cycle();
    for _ in 0..5 {
        assert_eq!(cycle.next(), Some(9));
    }
}

#[test]
fn extract_at_two_returns_third_and_remainder() {
    let (item, rem) = producer(&[10, 20, 30, 40]).extract(2);
    assert_eq!(item, Some(30));
    assert_eq!(drain(rem), vec![10, 20, 40]);
}

#[test]
fn extract_at_zero_takes_the_head() {
    let (item, rem) = producer(&[10, 20, 30]).extract(0);
    assert_eq!(item, Some(10));
    assert_eq!(drain(rem), vec![20, 30]);
}

#[test]
fn extract_past_the_end_keeps_everything() {
    let (item, rem) = producer(&[10, 20]).extract(5);
    assert_eq!(item, None);
    assert_eq!(drain(rem), vec![10, 20]);
}

#[test]
fn extract_at_the_length_keeps_everything() {
    let (item, rem) = producer(&[10, 20]).extract(2);
    assert_eq!(item, None);
    assert_eq!(drain(rem), vec![10, 20]);
}

#[test]
fn extract_skip_ahead_on_the_remainder() {
    // a second lookahead works against the remainder's own order, both
    // inside and beyond what the first one buffered
    let (item, mut rem) = producer(&[0, 1, 2, 3, 4, 5]).extract(3);
    assert_eq!(item, Some(3));
    // remainder order is 0,1,2,4,5; position 1 of it is 1
    assert_eq!(rem.nth(1), Some(1));
    assert_eq!(drain(rem), vec![0, 2, 4, 5]);
}

#[test]
fn extract_composes_with_itself() {
    let (first, rem) = producer(&[7, 8, 9]).extract(1);
    assert_eq!(first, Some(8));
    let (second, rest) = rem.extract(1);
    assert_eq!(second, Some(9));
    assert_eq!(drain(rest), vec![7]);
}

#[test]
fn tee_drains_both_handles_and_pulls_once_per_position() {
    let source = VecProducer::new(vec!['a', 'b', 'c']);
    let (mut shared, mut a, mut b) = source.tee();
    let mut out_a = Vec::new();
    while let Some(v) = a.next(&mut shared) {
        out_a.push(v);
    }
    let mut out_b = Vec::new();
    while let Some(v) = b.next(&mut shared) {
        out_b.push(v);
    }
    assert_eq!(out_a, vec!['a', 'b', 'c']);
    assert_eq!(out_b, vec!['a', 'b', 'c']);
    assert_eq!(shared.buffered_len(), 3);
}

#[test]
fn tee_interleaved_sees_the_same_values() {
    let (mut shared, mut a, mut b) = producer(&[4, 5, 6, 7]).tee();
    assert_eq!(a.next(&mut shared), Some(4));
    assert_eq!(b.next(&mut shared), Some(4));
    assert_eq!(b.next(&mut shared), Some(5));
    assert_eq!(a.next(&mut shared), Some(5));
    assert_eq!(a.next(&mut shared), Some(6));
    assert_eq!(a.next(&mut shared), Some(7));
    assert_eq!(a.next(&mut shared), None);
    assert_eq!(b.next(&mut shared), Some(6));
    assert_eq!(b.next(&mut shared), Some(7));
    assert_eq!(b.next(&mut shared), None);
    assert_eq!(shared.buffered_len(), 4);
}

#[test]
fn group_by_identity_groups_runs() {
    let mut groups = producer(&[1, 1, 2, 2, 2, 1]).group_by(IdentityKey);
    assert_eq!(groups.next(), Some((1, vec![1, 1])));
    assert_eq!(groups.next(), Some((2, vec![2, 2, 2])));
    assert_eq!(groups.next(), Some((1, vec![1])));
    assert_eq!(groups.next(), None);
    assert_eq!(groups.next(), None);
}

#[test]
fn group_by_of_empty_yields_no_groups() {
    let mut groups = producer(&[]).group_by(IdentityKey);
    assert_eq!(groups.next(), None);
}

#[test]
fn group_by_flattening_reconstructs_the_source() {
    let source = [3u64, 3, 3, 1, 4, 4, 1, 1];
    let mut groups = producer(&source).group_by(IdentityKey);
    let mut flattened: Vec<u64> = Vec::new();
    let mut last_key: Option<u64> = None;
    while let Some((key, values)) = groups.next() {
        assert_ne!(last_key, Some(key));
        for v in &values {
            assert_eq!(*v, key);
        }
        last_key = Some(key);
        flattened.extend(values);
    }
    assert_eq!(flattened, source.to_vec());
}

#[test]
fn cycle_feeds_on_an_extract_remainder() {
    let (item, rem) = producer(&[1, 2, 3]).extract(1);
    assert_eq!(item, Some(2));
    let mut cycle = rem.lazy_cycle();
    let mut out = Vec::new();
    for _ in 0..5 {
        out.push(cycle.next().unwrap());
    }
    assert_eq!(out, vec![1, 3, 1, 3, 1]);
}

#[test]
fn extract_new_matches_the_trait_entry_point() {
    let (item, rem) = Extract::new(producer(&[10, 20, 30, 40]), 2);
    assert_eq!(item, Some(30));
    assert_eq!(drain(rem), vec![10, 20, 40]);
}
