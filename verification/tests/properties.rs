use enumerate_number::Counter;
use enumerate_number::EnumerateNumber;
use enumerate_number::RangeProducer;
use enumerate_number::VecProducer;

#[test]
fn forward_counters_ascend_from_zero() {
    let mut iter = VecProducer::new(vec!['s', 'o', 'm', 'e']).enumerate_i32();
    assert_eq!(iter.next(), Some((0, 's')));
    assert_eq!(iter.next(), Some((1, 'o')));
    assert_eq!(iter.next(), Some((2, 'm')));
    assert_eq!(iter.next(), Some((3, 'e')));
    assert_eq!(iter.next(), None);
}

#[test]
fn backward_counters_descend_to_zero() {
    let mut iter = RangeProducer::new(0, 5).enumerate_i16();
    assert_eq!(iter.next_back(), Some((4, 4)));
    assert_eq!(iter.next_back(), Some((3, 3)));
    assert_eq!(iter.next_back(), Some((2, 2)));
    assert_eq!(iter.next_back(), Some((1, 1)));
    assert_eq!(iter.next_back(), Some((0, 0)));
    assert_eq!(iter.next_back(), None);
}

#[test]
fn mixed_consumption_keeps_true_positions() {
    let mut iter = RangeProducer::new(0, 5).enumerate_i16();
    assert_eq!(iter.next(), Some((0, 0)));
    assert_eq!(iter.next(), Some((1, 1)));
    assert_eq!(iter.next_back(), Some((4, 4)));
    assert_eq!(iter.next_back(), Some((3, 3)));
    assert_eq!(iter.next_back(), Some((2, 2)));
    assert_eq!(iter.next_back(), None);
    assert_eq!(iter.next(), None);
}

#[test]
fn skip_forward_matches_single_steps() {
    let mut bulk = RangeProducer::new(10, 20).enumerate_u32();
    let mut single = RangeProducer::new(10, 20).enumerate_u32();
    single.next();
    single.next();
    let stepped = single.next();
    assert_eq!(bulk.nth(2), stepped);
    assert_eq!(bulk.len(), single.len());
    assert_eq!(bulk.next(), single.next());
    assert_eq!(bulk.next_back(), single.next_back());
}

#[test]
fn skip_backward_matches_single_steps() {
    let mut bulk = RangeProducer::new(10, 20).enumerate_u32();
    let mut single = RangeProducer::new(10, 20).enumerate_u32();
    single.next_back();
    single.next_back();
    let stepped = single.next_back();
    assert_eq!(bulk.nth_back(2), stepped);
    assert_eq!(bulk.len(), single.len());
    assert_eq!(bulk.next(), single.next());
    assert_eq!(bulk.next_back(), single.next_back());
}

#[test]
fn skip_backward_past_the_end_matches_single_steps() {
    let mut bulk = RangeProducer::new(0, 3).enumerate_i64();
    let mut single = RangeProducer::new(0, 3).enumerate_i64();
    for _ in 0..6 {
        single.next_back();
    }
    assert_eq!(bulk.nth_back(5), None);
    assert_eq!(bulk.next(), single.next());
    assert_eq!(bulk.next(), None);
}

#[test]
fn count_ignores_the_counter() {
    assert_eq!(RangeProducer::new(0, 5).enumerate_u8().count(), 5);
    let mut iter = RangeProducer::new(0, 5).enumerate_u8();
    iter.next();
    iter.next_back();
    assert_eq!(iter.count(), 3);
    assert_eq!(RangeProducer::new(7, 7).enumerate_i128().count(), 0);
}

#[test]
fn length_reporting_tracks_the_inner_producer() {
    let mut iter = RangeProducer::new(0, 5).enumerate_i16();
    assert_eq!(iter.len(), 5);
    assert_eq!(iter.size_hint(), (5, Some(5)));
    iter.next();
    assert_eq!(iter.len(), 4);
    assert_eq!(iter.size_hint(), (4, Some(4)));
    iter.next_back();
    assert_eq!(iter.len(), 3);
    assert_eq!(iter.size_hint(), (3, Some(3)));
    iter.nth(0);
    iter.nth_back(0);
    assert_eq!(iter.len(), 1);
    assert_eq!(iter.size_hint(), (1, Some(1)));
}

#[test]
fn every_operation_reports_exhaustion_after_exhaustion() {
    let mut iter = RangeProducer::new(0, 2).enumerate_i16();
    assert_eq!(iter.next(), Some((0, 0)));
    assert_eq!(iter.next(), Some((1, 1)));
    assert_eq!(iter.next(), None);
    assert_eq!(iter.next(), None);
    assert_eq!(iter.next_back(), None);
    assert_eq!(iter.nth(0), None);
    assert_eq!(iter.nth_back(3), None);
    assert_eq!(iter.len(), 0);
    let mut elems: Vec<(i16, usize)> = vec![];
    iter.fold((), |(), ele| {
        elems.push(ele);
    });
    assert_eq!(elems, vec![]);
}

#[test]
fn an_empty_producer_is_exhausted_from_the_start() {
    let mut iter = RangeProducer::new(3, 3).enumerate_u64();
    assert_eq!(iter.size_hint(), (0, Some(0)));
    assert_eq!(iter.next(), None);
    assert_eq!(iter.nth(0), None);
    assert_eq!(iter.next_back(), None);
    let mut reversed = RangeProducer::new(5, 0).enumerate_u64();
    assert_eq!(reversed.len(), 0);
    assert_eq!(reversed.next(), None);
}

#[test]
fn generic_wrap_starts_at_zero() {
    let mut iter = VecProducer::new(vec![40u8, 50, 60]).enumerate_number::<u64>();
    assert_eq!(iter.next(), Some((0, 40)));
    assert_eq!(iter.next_back(), Some((2, 60)));
    assert_eq!(iter.next(), Some((1, 50)));
    assert_eq!(iter.next(), None);
}

#[test]
fn fold_threads_the_accumulator_in_order() {
    let total = RangeProducer::new(1, 5).enumerate_i32().fold(0i64, |acc, (c, e)| {
        acc * 10 + (c as i64) + (e as i64)
    });
    assert_eq!(total, 1357);
}

#[test]
fn rfold_threads_the_accumulator_in_reverse_order() {
    let total = RangeProducer::new(1, 5).enumerate_i32().rfold(0i64, |acc, (c, e)| {
        acc * 10 + (c as i64) + (e as i64)
    });
    assert_eq!(total, 7531);
}

#[test]
fn owned_elements_move_through_the_adapter() {
    let words = vec!["alpha".to_string(), "beta".to_string(), "gamma".to_string()];
    let mut iter = VecProducer::new(words).enumerate_u16();
    assert_eq!(iter.next(), Some((0, "alpha".to_string())));
    assert_eq!(iter.next_back(), Some((2, "gamma".to_string())));
    assert_eq!(iter.next_back(), Some((1, "beta".to_string())));
    assert_eq!(iter.next(), None);
}

#[test]
fn counters_step_as_their_width_allows() {
    let mut c: u8 = Counter::default();
    c.inc();
    c.inc_n(200);
    assert_eq!(c, 201);
    c.dec();
    assert_eq!(c, 200);
    let mut s: i16 = Counter::default();
    s.dec();
    assert_eq!(s, -1);
    s.inc_n(30000);
    assert_eq!(s, 29999);
    let mut w: i128 = Counter::default();
    w.inc_n(usize::MAX);
    assert_eq!(w, usize::MAX as i128);
}
