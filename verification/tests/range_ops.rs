//! The interval algebra on concrete ranges.

use rustowl::models::{Loc, Range};
use rustowl::range_ops::{
    common_range, common_ranges, eliminated_ranges, exclude_ranges, intersect_ranges,
    is_super_range, merge_ranges,
};

fn r(from: u32, until: u32) -> Range {
    Range::new(Loc(from), Loc(until)).unwrap()
}

#[test]
fn super_range_reaches_further_on_one_side() {
    assert!(is_super_range(r(0, 10), r(2, 5)));
    assert!(is_super_range(r(0, 10), r(0, 5)));
    assert!(is_super_range(r(0, 10), r(5, 10)));
    assert!(!is_super_range(r(0, 10), r(0, 10)));
    assert!(!is_super_range(r(0, 5), r(0, 10)));
    assert!(!is_super_range(r(0, 5), r(3, 8)));
}

#[test]
fn common_range_is_the_intersection() {
    assert_eq!(common_range(r(0, 10), r(5, 15)), Some(r(5, 10)));
    assert_eq!(common_range(r(0, 10), r(3, 4)), Some(r(3, 4)));
    assert_eq!(common_range(r(0, 5), r(5, 10)), None);
    assert_eq!(common_range(r(0, 5), r(7, 9)), None);
    assert_eq!(common_range(r(4, 5), r(0, u32::MAX)), Some(r(4, 5)));
}

#[test]
fn common_range_is_symmetric() {
    let ranges = [r(0, 10), r(5, 15), r(10, 20), r(3, 4), r(0, 1), r(19, 40)];
    for a in ranges {
        for b in ranges {
            assert_eq!(common_range(a, b), common_range(b, a));
        }
    }
}

#[test]
fn merge_ranges_joins_what_touches() {
    assert_eq!(merge_ranges(r(0, 5), r(5, 10)), Some(r(0, 10)));
    assert_eq!(merge_ranges(r(5, 10), r(0, 5)), Some(r(0, 10)));
    assert_eq!(merge_ranges(r(0, 5), r(3, 8)), Some(r(0, 8)));
    assert_eq!(merge_ranges(r(0, 9), r(3, 8)), Some(r(0, 9)));
    assert_eq!(merge_ranges(r(0, 5), r(6, 8)), None);
}

#[test]
fn eliminated_ranges_merges_until_nothing_touches() {
    assert_eq!(eliminated_ranges(vec![r(0, 5), r(3, 8), r(10, 12)]), vec![r(0, 8), r(10, 12)]);
    assert_eq!(eliminated_ranges(vec![r(0, 1), r(2, 3), r(1, 2)]), vec![r(0, 3)]);
    assert_eq!(eliminated_ranges(vec![r(10, 12), r(0, 5)]), vec![r(10, 12), r(0, 5)]);
    assert_eq!(eliminated_ranges(vec![r(4, 6), r(0, 2), r(2, 4)]), vec![r(0, 6)]);
    assert_eq!(eliminated_ranges(Vec::new()), Vec::<Range>::new());
    assert_eq!(eliminated_ranges(vec![r(7, 9), r(7, 9)]), vec![r(7, 9)]);
}

#[test]
fn eliminated_ranges_is_idempotent_and_disjoint() {
    let inputs = vec![
        vec![r(0, 5), r(3, 8), r(10, 12)],
        vec![r(0, 1), r(2, 3), r(1, 2), r(30, 31)],
        vec![r(9, 12), r(0, 4), r(20, 30), r(3, 10), r(25, 26)],
        vec![r(0, u32::MAX), r(5, 6)],
    ];
    for input in inputs {
        let once = eliminated_ranges(input);
        let twice = eliminated_ranges(once.clone());
        assert_eq!(once, twice);
        for (i, a) in once.iter().enumerate() {
            for b in once.iter().skip(i + 1) {
                assert_eq!(common_range(*a, *b), None);
                assert_eq!(merge_ranges(*a, *b), None);
            }
        }
    }
}

#[test]
fn common_ranges_collects_pairwise_intersections() {
    assert_eq!(common_ranges(&vec![r(0, 10), r(5, 15), r(8, 20)]), vec![r(5, 15)]);
    assert_eq!(common_ranges(&vec![r(10, 30), r(20, 40)]), vec![r(20, 30)]);
    assert_eq!(common_ranges(&vec![r(0, 5), r(5, 9)]), Vec::<Range>::new());
    assert_eq!(
        common_ranges(&vec![r(0, 10), r(50, 60), r(8, 12), r(55, 70)]),
        vec![r(8, 10), r(55, 60)]
    );
}

#[test]
fn exclude_ranges_gives_the_left_and_the_right_remainder() {
    assert_eq!(exclude_ranges(vec![r(0, 10)], &vec![r(4, 6)]), vec![r(0, 4), r(6, 10)]);
    assert_eq!(exclude_ranges(vec![r(0, 10)], &vec![r(3, 5)]), vec![r(0, 3), r(5, 10)]);
    assert_eq!(exclude_ranges(vec![r(0, 10)], &vec![r(0, 4)]), vec![r(4, 10)]);
    assert_eq!(exclude_ranges(vec![r(0, 10)], &vec![r(6, 10)]), vec![r(0, 6)]);
    assert_eq!(exclude_ranges(vec![r(0, 10)], &vec![r(0, 10)]), Vec::<Range>::new());
    assert_eq!(exclude_ranges(vec![r(0, 10)], &vec![r(20, 30)]), vec![r(0, 10)]);
    assert_eq!(exclude_ranges(vec![r(0, 10)], &vec![r(10, 30)]), vec![r(0, 10)]);
    assert_eq!(exclude_ranges(vec![r(0, 10)], &vec![r(1, 9)]), vec![r(0, 1), r(9, 10)]);
    assert_eq!(exclude_ranges(vec![r(0, 10)], &vec![r(5, 6)]), vec![r(0, 5), r(6, 10)]);
    assert_eq!(exclude_ranges(vec![r(0, 10)], &Vec::new()), vec![r(0, 10)]);
    // the residuals are cut again by the ranges that follow
    assert_eq!(
        exclude_ranges(vec![r(0, 20)], &vec![r(5, 6), r(12, 14)]),
        vec![r(0, 5), r(6, 12), r(14, 20)]
    );
    // a range that is kept stays in front of the residuals of another
    assert_eq!(
        exclude_ranges(vec![r(0, 10), r(40, 50)], &vec![r(3, 5)]),
        vec![r(40, 50), r(0, 3), r(5, 10)]
    );
}

#[test]
fn exclude_ranges_at_the_ends_of_the_offsets() {
    assert_eq!(exclude_ranges(vec![r(0, u32::MAX)], &vec![r(5, u32::MAX)]), vec![r(0, 5)]);
    assert_eq!(exclude_ranges(vec![r(0, u32::MAX)], &vec![r(0, 1)]), vec![r(1, u32::MAX)]);
    assert_eq!(
        exclude_ranges(vec![r(0, u32::MAX)], &vec![r(0, u32::MAX)]),
        Vec::<Range>::new()
    );
}

#[test]
fn exclude_ranges_never_overlaps_what_is_excluded() {
    let from = vec![r(0, 30), r(25, 60), r(100, 200), r(7, 8)];
    let excludes = vec![r(10, 12), r(28, 40), r(150, 151), r(199, 300), r(0, 1)];
    let left = exclude_ranges(from.clone(), &excludes);
    assert!(!left.is_empty());
    for kept in &left {
        for cut in &excludes {
            assert_eq!(common_range(*kept, *cut), None);
        }
        assert!(from.iter().any(|f| f.from() <= kept.from() && kept.until() <= f.until()));
    }
    assert_eq!(
        left,
        vec![r(1, 10), r(12, 28), r(40, 60), r(100, 150), r(151, 199)]
    );
}

#[test]
fn intersect_ranges_takes_one_range_of_each_list() {
    // two ranges of one list that overlap share nothing with an empty list
    assert_eq!(intersect_ranges(&vec![r(0, 5), r(3, 8)], &Vec::new()), Vec::<Range>::new());
    assert_eq!(intersect_ranges(&Vec::new(), &vec![r(0, 5), r(3, 8)]), Vec::<Range>::new());
    assert_eq!(intersect_ranges(&vec![r(0, 5)], &vec![r(3, 8)]), vec![r(3, 5)]);
    assert_eq!(intersect_ranges(&vec![r(0, 5)], &vec![r(5, 8)]), Vec::<Range>::new());
    // the shared parts are flattened
    assert_eq!(
        intersect_ranges(&vec![r(0, 10), r(20, 30)], &vec![r(5, 8), r(7, 25), r(40, 50)]),
        vec![r(5, 10), r(20, 25)]
    );
    assert_eq!(
        intersect_ranges(&vec![r(0, 10), r(2, 4)], &vec![r(3, 12)]),
        vec![r(3, 10)]
    );
}
