use enumerate_number::EnumerateNumber;
use enumerate_number::RangeProducer;

#[test]
fn fold() {
    let mut elems = vec![];
    RangeProducer::new(0, 5).enumerate_i16().fold((), |(), ele| {
        elems.push(ele);
    });
    assert_eq!(elems, vec![(0, 0), (1, 1), (2, 2), (3, 3), (4, 4),]);
}

#[test]
fn fold1() {
    let mut elems = vec![];
    let mut iter = RangeProducer::new(0, 5).enumerate_i16();
    assert_eq!(iter.next(), Some((0, 0)));
    iter.fold((), |(), ele| {
        elems.push(ele);
    });
    assert_eq!(elems, vec![(1, 1), (2, 2), (3, 3), (4, 4),]);
}

#[test]
fn rfold() {
    let mut elems = vec![];
    RangeProducer::new(0, 5).enumerate_i16().rfold((), |(), ele| {
        elems.push(ele);
    });
    assert_eq!(elems, vec![(4, 4), (3, 3), (2, 2), (1, 1), (0, 0),]);
}

#[test]
fn rfold1() {
    let mut elems = vec![];
    let mut iter = RangeProducer::new(0, 5).enumerate_i16();
    assert_eq!(iter.next(), Some((0, 0)));
    iter.rfold((), |(), ele| {
        elems.push(ele);
    });
    assert_eq!(elems, vec![(4, 4), (3, 3), (2, 2), (1, 1),]);
}

#[test]
fn rfold2() {
    let mut elems = vec![];
    let mut iter = RangeProducer::new(0, 5).enumerate_i16();
    assert_eq!(iter.next_back(), Some((4, 4)));
    iter.rfold((), |(), ele| {
        elems.push(ele);
    });
    assert_eq!(elems, vec![(3, 3), (2, 2), (1, 1), (0, 0),]);
}

#[test]
fn nth() {
    let mut iter = RangeProducer::new(0, 5).enumerate_i16();
    assert_eq!(iter.nth(1), Some((1, 1)));
    assert_eq!(iter.nth(0), Some((2, 2)));
    assert_eq!(iter.nth(1), Some((4, 4)));
}

#[test]
fn nth_back() {
    let mut iter = RangeProducer::new(0, 5).enumerate_i16();
    assert_eq!(iter.nth_back(1), Some((3, 3)));
    assert_eq!(iter.nth_back(0), Some((2, 2)));
    assert_eq!(iter.nth_back(1), Some((0, 0)));
}

#[test]
fn nth_back1() {
    let mut iter = RangeProducer::new(0, 5).enumerate_i16();
    assert_eq!(iter.nth_back(1), Some((3, 3)));
    assert_eq!(iter.nth(0), Some((0, 0)));
    assert_eq!(iter.nth(0), Some((1, 1)));
}
