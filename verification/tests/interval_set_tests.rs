//! Interval sets: membership, merging, complement, removal, freezing.

use antlr_rust::interval_set::IntervalSet;

#[test]
fn empty_set_contains_nothing() {
    let s = IntervalSet::new();
    assert!(s.is_empty());
    assert!(!s.contains(0));
    assert!(!s.contains(-1));
    assert_eq!(s.num_intervals(), 0);
}

#[test]
fn add_one_and_contains() {
    let mut s = IntervalSet::new();
    s.add_one(5);
    assert!(s.contains(5));
    assert!(!s.contains(4));
    assert!(!s.contains(6));
    assert!(!s.is_empty());
}

#[test]
fn adjacent_ranges_merge() {
    let mut s = IntervalSet::new();
    s.add_range(1, 3);
    s.add_range(4, 6);
    // adjacent ranges collapse into one sorted interval
    assert_eq!(s.num_intervals(), 1);
    let iv = s.get_interval(0);
    assert_eq!((iv.a, iv.b), (1, 6));
}

#[test]
fn disjoint_ranges_stay_sorted_and_disjoint() {
    let mut s = IntervalSet::new();
    s.add_range(10, 12);
    s.add_range(1, 3);
    s.add_range(20, 22);
    assert_eq!(s.num_intervals(), 3);
    let a = s.get_interval(0);
    let b = s.get_interval(1);
    let c = s.get_interval(2);
    assert!((a.a, a.b) == (1, 3) && (b.a, b.b) == (10, 12) && (c.a, c.b) == (20, 22));
    // sorted, pairwise disjoint, non-adjacent
    assert!(a.b + 1 < b.a && b.b + 1 < c.a);
    assert!(s.contains(11) && !s.contains(13) && s.contains(20));
}

#[test]
fn overlapping_range_swallows() {
    let mut s = IntervalSet::new();
    s.add_range(1, 3);
    s.add_range(10, 12);
    s.add_range(2, 11);
    assert_eq!(s.num_intervals(), 1);
    let iv = s.get_interval(0);
    assert_eq!((iv.a, iv.b), (1, 12));
}

#[test]
fn empty_range_changes_nothing() {
    let mut s = IntervalSet::new();
    s.add_range(5, 3);
    assert!(s.is_empty());
}

#[test]
fn remove_one_splits() {
    let mut s = IntervalSet::new();
    s.add_range(1, 5);
    s.remove_one(3);
    assert!(s.contains(2) && !s.contains(3) && s.contains(4));
    assert_eq!(s.num_intervals(), 2);
}

#[test]
fn complement_within_bounds() {
    let mut s = IntervalSet::new();
    s.add_range(3, 4);
    s.add_one(8);
    let c = s.complement(1, 10);
    for v in 1..=10 {
        assert_eq!(c.contains(v), !s.contains(v), "value {}", v);
    }
    assert!(!c.contains(0) && !c.contains(11));
}

#[test]
fn add_set_unions() {
    let mut a = IntervalSet::new();
    a.add_range(1, 3);
    let mut b = IntervalSet::new();
    b.add_range(5, 7);
    a.add_set(&b);
    assert!(a.contains(2) && a.contains(6) && !a.contains(4));
}

#[test]
fn read_only_flag() {
    let mut s = IntervalSet::new();
    s.add_one(1);
    assert!(!s.read_only());
    s.set_read_only(true);
    assert!(s.read_only());
    // the contents survive freezing
    assert!(s.contains(1));
}

#[test]
fn deep_clone_equal_contents() {
    let mut s = IntervalSet::new();
    s.add_range(1, 3);
    s.add_one(9);
    let c = s.deep_clone();
    assert_eq!(c.num_intervals(), s.num_intervals());
    for v in -2..12 {
        assert_eq!(c.contains(v), s.contains(v));
    }
}
