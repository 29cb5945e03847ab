use workshop::range::Range1D;

fn numbers(range: &Range1D) -> impl Iterator<Item = u64> {
    let mut it = range.iter();
    std::iter::from_fn(move || it.next())
}

#[test]
fn create_single_item_range() {
    let range = Range1D::new(1, 1).unwrap();
    assert_eq!(range.start(), 1);
    assert_eq!(range.end(), 1);
    assert_eq!(range.len(), 1);
}

#[test]
fn create_range() {
    let range = Range1D::new(1, 5).unwrap();
    assert_eq!(range.start(), 1);
    assert_eq!(range.end(), 5);
    assert_eq!(range.len(), 5);
}

#[test]
fn correct_method_types() {
    let range = Range1D::new(1, 5).unwrap();
    assert_eq!(range.start(), 1u64);
    assert_eq!(range.end(), 5u64);
    assert_eq!(range.len(), 5usize);
}

#[test]
fn create_range_large() {
    let range = Range1D::new(1, 50000000000000000).unwrap();
    assert_eq!(range.start(), 1);
    assert_eq!(range.end(), 50000000000000000);
    assert_eq!(range.len(), 50000000000000000);
}

#[test]
fn range_copy() {
    let a = Range1D::new(1, 1).unwrap();
    let b = a;
    assert_eq!(a.start(), b.start());
}

#[test]
fn range_eq() {
    let a = Range1D::new(10, 12).unwrap();
    let b = Range1D::new(10, 12).unwrap();
    assert_eq!(a, b);
}

#[test]
fn does_not_contain_point_before() {
    let range = Range1D::new(14, 18).unwrap();
    assert!(!range.contains(10));
    assert!(!range.contains(13));
}

#[test]
fn does_not_contain_point_after() {
    let range = Range1D::new(20, 25).unwrap();
    assert!(!range.contains(26));
    assert!(!range.contains(39));
}

#[test]
fn contains_point() {
    let range = Range1D::new(14, 18).unwrap();
    assert!(range.contains(14));
    assert!(range.contains(15));
    assert!(range.contains(16));
    assert!(range.contains(17));
    assert!(range.contains(18));
}

#[test]
fn iterate_single() {
    let range = Range1D::new(14, 14).unwrap();
    let mut iter = range.iter();
    assert_eq!(iter.next(), Some(14));
    assert_eq!(iter.next(), None);
}

#[test]
fn iterate_many() {
    let range = Range1D::new(20, 25).unwrap();
    let items: Vec<_> = numbers(&range).collect();
    assert_eq!(items, vec![20, 21, 22, 23, 24, 25]);
}

#[test]
fn intersect_empty_left() {
    let a = Range1D::new(20, 25).unwrap();
    let b = Range1D::new(18, 19).unwrap();
    assert!(a.intersect(b).is_none());
}

#[test]
fn intersect_empty_right() {
    let a = Range1D::new(20, 25).unwrap();
    let b = Range1D::new(28, 30).unwrap();
    assert!(a.intersect(b).is_none());
}

#[test]
fn intersect_single_left() {
    let a = Range1D::new(20, 25).unwrap();
    let b = Range1D::new(18, 20).unwrap();
    assert_eq!(a.intersect(b), Some(Range1D::new(20, 20).unwrap()));
}

#[test]
fn intersect_single_right() {
    let a = Range1D::new(20, 25).unwrap();
    let b = Range1D::new(25, 28).unwrap();
    assert_eq!(a.intersect(b), Some(Range1D::new(25, 25).unwrap()));
}

#[test]
fn intersect_same() {
    let a = Range1D::new(20, 25).unwrap();
    let b = Range1D::new(20, 25).unwrap();
    assert_eq!(a.intersect(b), Some(Range1D::new(20, 25).unwrap()));
}

#[test]
fn intersect_subset() {
    let a = Range1D::new(10, 80).unwrap();
    let b = Range1D::new(24, 38).unwrap();
    assert_eq!(a.intersect(b), Some(Range1D::new(24, 38).unwrap()));
}

#[test]
fn intersect_superset() {
    let a = Range1D::new(18, 25).unwrap();
    let b = Range1D::new(4, 40).unwrap();
    assert_eq!(a.intersect(b), Some(Range1D::new(18, 25).unwrap()));
}

#[test]
fn intersect_slice_left() {
    let a = Range1D::new(20, 25).unwrap();
    let b = Range1D::new(17, 21).unwrap();
    assert_eq!(a.intersect(b), Some(Range1D::new(20, 21).unwrap()));
}

#[test]
fn intersect_slice_right() {
    let a = Range1D::new(20, 25).unwrap();
    let b = Range1D::new(23, 28).unwrap();
    assert_eq!(a.intersect(b), Some(Range1D::new(23, 25).unwrap()));
}

#[test]
fn intersect_large() {
    let a = Range1D::new(20, 25).unwrap();
    let b = Range1D::new(23, 28).unwrap();
    assert_eq!(a.intersect(b), Some(Range1D::new(23, 25).unwrap()));
}

#[test]
fn invalid_range_is_an_error() {
    assert_eq!(
        Range1D::new(2, 1),
        Err(String::from("Start must not be larger than end"))
    );
}

#[test]
fn length_is_capped() {
    let all = Range1D::new(0, u64::MAX).unwrap();
    assert_eq!(all.len(), usize::MAX);
}

#[test]
fn iterate_up_to_the_largest_number() {
    let range = Range1D::new(u64::MAX - 1, u64::MAX).unwrap();
    assert_eq!(numbers(&range).collect::<Vec<_>>(), vec![u64::MAX - 1, u64::MAX]);
}
