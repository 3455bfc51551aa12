use audio_fetch::range_set::{Range, RangeSet};

fn set_of(ranges: &[(usize, usize)]) -> RangeSet {
    let mut set = RangeSet::new();
    for &(start, length) in ranges {
        set.add_range(&Range::new(start, length));
    }
    set
}

fn runs(set: &RangeSet) -> Vec<(usize, usize)> {
    set.as_slice().iter().map(|r| (r.start, r.length)).collect()
}

#[test]
fn range_end_is_behind_the_last_position() {
    assert_eq!(Range::new(10, 5).end(), 15);
    assert_eq!(Range::new(usize::MAX, 0).end(), usize::MAX);
}

#[test]
fn new_set_is_empty() {
    let set = RangeSet::new();
    assert!(set.as_slice().is_empty());
    assert!(!set.contains(0));
    assert_eq!(set.contained_length_from_value(0), 0);
}

#[test]
fn empty_range_adds_nothing() {
    assert_eq!(runs(&set_of(&[(3, 0)])), vec![]);
    assert_eq!(runs(&set_of(&[(0, 2), (5, 0)])), vec![(0, 2)]);
}

#[test]
fn ranges_are_kept_in_order() {
    assert_eq!(runs(&set_of(&[(20, 5), (0, 5), (10, 5)])), vec![(0, 5), (10, 5), (20, 5)]);
}

#[test]
fn touching_ranges_are_merged() {
    assert_eq!(runs(&set_of(&[(0, 5), (5, 5)])), vec![(0, 10)]);
    assert_eq!(runs(&set_of(&[(5, 5), (0, 5)])), vec![(0, 10)]);
    assert_eq!(runs(&set_of(&[(0, 5), (6, 4)])), vec![(0, 5), (6, 4)]);
}

#[test]
fn overlapping_ranges_are_merged() {
    assert_eq!(runs(&set_of(&[(0, 5), (10, 5), (20, 5), (3, 18)])), vec![(0, 25)]);
    assert_eq!(runs(&set_of(&[(0, 30), (10, 5)])), vec![(0, 30)]);
    assert_eq!(runs(&set_of(&[(0, 5), (10, 5), (30, 5), (8, 4)])), vec![(0, 5), (8, 7), (30, 5)]);
}

#[test]
fn contained_length_counts_to_the_next_gap() {
    let set = set_of(&[(10, 5), (20, 5)]);
    assert_eq!(set.contained_length_from_value(9), 0);
    assert_eq!(set.contained_length_from_value(10), 5);
    assert_eq!(set.contained_length_from_value(14), 1);
    assert_eq!(set.contained_length_from_value(15), 0);
    assert_eq!(set.contained_length_from_value(22), 3);
    assert_eq!(set.contained_length_from_value(25), 0);
    assert!(set.contains(24));
    assert!(!set.contains(17));
}

#[test]
fn subtracting_splits_trims_and_removes() {
    let mut set = set_of(&[(0, 30)]);
    set.subtract_range(&Range::new(10, 5));
    assert_eq!(runs(&set), vec![(0, 10), (15, 15)]);
    set.subtract_range(&Range::new(8, 10));
    assert_eq!(runs(&set), vec![(0, 8), (18, 12)]);
    set.subtract_range(&Range::new(0, 8));
    assert_eq!(runs(&set), vec![(18, 12)]);
    set.subtract_range(&Range::new(20, 0));
    assert_eq!(runs(&set), vec![(18, 12)]);
    set.subtract_range(&Range::new(0, 100));
    assert_eq!(runs(&set), vec![]);
}

#[test]
fn union_and_minus_leave_their_operands_alone() {
    let a = set_of(&[(0, 10), (20, 10)]);
    let b = set_of(&[(5, 20)]);
    assert_eq!(runs(&a.union(&b)), vec![(0, 30)]);
    assert_eq!(runs(&a.minus(&b)), vec![(0, 5), (25, 5)]);
    assert_eq!(runs(&b.minus(&a)), vec![(10, 10)]);
    assert_eq!(runs(&a), vec![(0, 10), (20, 10)]);
    assert_eq!(runs(&b), vec![(5, 20)]);
}

#[test]
fn range_set_operations_agree_with_single_positions() {
    // all sets over a few positions, against plain lists of them
    const N: usize = 6;
    for a_bits in 0..1usize << N {
        for b_bits in 0..1usize << N {
            let (mut a, mut b) = (RangeSet::new(), RangeSet::new());
            for i in 0..N {
                if a_bits >> i & 1 == 1 {
                    a.add_range(&Range::new(i, 1));
                }
                if b_bits >> (N - 1 - i) & 1 == 1 {
                    b.add_range(&Range::new(N - 1 - i, 1));
                }
            }
            let (union, rest) = (a.union(&b), a.minus(&b));
            for i in 0..N + 1 {
                let in_a = a_bits >> i & 1 == 1;
                let in_b = b_bits >> i & 1 == 1;
                assert_eq!(a.contains(i), in_a);
                assert_eq!(b.contains(i), in_b);
                assert_eq!(union.contains(i), in_a || in_b);
                assert_eq!(rest.contains(i), in_a && !in_b);
            }
            for pair in union.as_slice().windows(2) {
                assert!(pair[0].end() < pair[1].start);
            }
        }
    }
}

#[test]
fn equal_positions_are_equal_ranges() {
    let a = set_of(&[(0, 3), (3, 4), (20, 1)]);
    let mut b = set_of(&[(0, 21)]);
    b.subtract_range(&Range::new(7, 13));
    assert_eq!(a.as_slice(), b.as_slice());
}
