//! The interval algebra: intersection, union, subtraction and flattening of
//! half-open ranges.

use crate::models::{group_range_axioms, Range};
use vstd::prelude::*;

verus! {

broadcast use group_range_axioms;

/// The larger of two numbers.
pub open spec fn imax(a: int, b: int) -> int {
    if a < b {
        b
    } else {
        a
    }
}

/// The smaller of two numbers.
pub open spec fn imin(a: int, b: int) -> int {
    if a < b {
        a
    } else {
        b
    }
}

/// The two ranges share at least one offset.
pub open spec fn overlaps(a: Range, b: Range) -> bool {
    imax(a.lo(), b.lo()) < imin(a.hi(), b.hi())
}

/// The two ranges share an offset or lie end to end.
pub open spec fn touches(a: Range, b: Range) -> bool {
    imax(a.lo(), b.lo()) <= imin(a.hi(), b.hi())
}

/// `a` contains `b` and reaches further on at least one side.
pub open spec fn spec_is_super_range(a: Range, b: Range) -> bool {
    (a.lo() < b.lo() && b.hi() <= a.hi()) || (a.lo() <= b.lo() && b.hi() < a.hi())
}

/// The offsets that both ranges hold, if there are any.
pub open spec fn spec_common_range(a: Range, b: Range) -> Option<Range> {
    if overlaps(a, b) {
        Some(Range::spec_new(imax(a.lo(), b.lo()), imin(a.hi(), b.hi())))
    } else {
        None
    }
}

/// The single range that covers both, if they touch.
pub open spec fn spec_merge_ranges(a: Range, b: Range) -> Option<Range> {
    if touches(a, b) {
        Some(Range::spec_new(imin(a.lo(), b.lo()), imax(a.hi(), b.hi())))
    } else {
        None
    }
}

/// Some range of `rs` holds the offset `p`.
pub open spec fn covers(rs: Seq<Range>, p: int) -> bool {
    exists|k: int| 0 <= k < rs.len() && (#[trigger] rs[k]).lo() <= p < rs[k].hi()
}

/// None of the first `n` ranges of `rs` touches another range of `rs`.
pub open spec fn apart_upto(rs: Seq<Range>, n: int) -> bool {
    forall|a: int, b: int|
        0 <= a < n && 0 <= b < rs.len() && a != b ==> !touches(#[trigger] rs[a], #[trigger] rs[b])
}

/// No two ranges of `rs` touch: they are disjoint and none continues another.
pub open spec fn all_apart(rs: Seq<Range>) -> bool {
    apart_upto(rs, rs.len() as int)
}

/// Whether `r1` contains `r2` and reaches further on at least one side.
pub fn is_super_range(r1: Range, r2: Range) -> (r: bool)
    ensures
        r == spec_is_super_range(r1, r2),
{
    (r1.from().0 < r2.from().0 && r2.until().0 <= r1.until().0) || (r1.from().0 <= r2.from().0
        && r2.until().0 < r1.until().0)
}

/// The intersection of two ranges, if they share an offset.
pub fn common_range(r1: Range, r2: Range) -> (r: Option<Range>)
    ensures
        r == spec_common_range(r1, r2),
{
    let from = if r1.from().0 < r2.from().0 {
        r2.from()
    } else {
        r1.from()
    };
    let until = if r1.until().0 < r2.until().0 {
        r1.until()
    } else {
        r2.until()
    };
    Range::new(from, until)
}

/// Merges two ranges into the one range that covers both, if they overlap
/// or lie end to end.
pub fn merge_ranges(r1: Range, r2: Range) -> (r: Option<Range>)
    ensures
        r == spec_merge_ranges(r1, r2),
{
    if common_range(r1, r2).is_some() || r1.until().0 == r2.from().0 || r2.until().0
        == r1.from().0 {
        let from = if r1.from().0 < r2.from().0 {
            r1.from()
        } else {
            r2.from()
        };
        let until = if r1.until().0 < r2.until().0 {
            r2.until()
        } else {
            r1.until()
        };
        Range::new(from, until)
    } else {
        None
    }
}

/// The first index from `j` on, other than `i`, whose range touches `rs[i]`.
pub open spec fn first_touching(rs: Seq<Range>, i: int, j: int) -> Option<int>
    decreases rs.len() - j,
{
    if j < 0 || j >= rs.len() {
        None
    } else if j != i && touches(rs[i], rs[j]) {
        Some(j)
    } else {
        first_touching(rs, i, j + 1)
    }
}

/// Flattens `rs` from index `i` on: while `rs[i]` touches another range the
/// other is merged into it and leaves the list; then the next index is
/// taken.
pub open spec fn spec_eliminate_from(rs: Seq<Range>, i: int) -> Seq<Range>
    decreases rs.len(), rs.len() - i,
{
    if i < 0 || i >= rs.len() {
        rs
    } else {
        match first_touching(rs, i, 0) {
            None => spec_eliminate_from(rs, i + 1),
            Some(j) => if 0 <= j < rs.len() {
                let merged = Range::spec_new(
                    imin(rs[i].lo(), rs[j].lo()),
                    imax(rs[i].hi(), rs[j].hi()),
                );
                spec_eliminate_from(rs.update(i, merged).remove(j), i)
            } else {
                rs
            },
        }
    }
}

/// The ranges of `rs` merged until no two of them touch.
pub open spec fn spec_eliminated_ranges(rs: Seq<Range>) -> Seq<Range> {
    spec_eliminate_from(rs, 0)
}

/// What `first_touching` finds is the first touching range, and nothing
/// before it touches.
pub proof fn lemma_first_touching(rs: Seq<Range>, i: int, j: int)
    requires
        0 <= i < rs.len(),
        0 <= j,
    ensures
        match first_touching(rs, i, j) {
            Some(k) => j <= k < rs.len() && k != i && touches(rs[i], rs[k]) && forall|m: int|
                j <= m < k && m != i ==> !touches(rs[i], #[trigger] rs[m]),
            None => forall|m: int| j <= m < rs.len() && m != i ==> !touches(rs[i], #[trigger] rs[m]),
        },
    decreases rs.len() - j,
{
    if j < rs.len() && !(j != i && touches(rs[i], rs[j])) {
        lemma_first_touching(rs, i, j + 1);
    }
}

fn find_touching(ranges: &Vec<Range>, i: usize) -> (r: Option<usize>)
    requires
        i < ranges@.len(),
    ensures
        match r {
            Some(j) => first_touching(ranges@, i as int, 0) == Some(j as int) && j < ranges@.len(),
            None => first_touching(ranges@, i as int, 0) is None,
        },
{
    let mut j: usize = 0;
    while j < ranges.len()
        invariant
            j <= ranges@.len(),
            i < ranges@.len(),
            first_touching(ranges@, i as int, 0) == first_touching(ranges@, i as int, j as int),
        decreases ranges.len() - j,
    {
        if i != j && merge_ranges(ranges[i], ranges[j]).is_some() {
            return Some(j);
        }
        j += 1;
    }
    None
}

/// Merges every pair of ranges that overlap or lie end to end, until none
/// is left: the result covers the same offsets with ranges that are
/// pairwise apart.
pub fn eliminated_ranges(ranges: Vec<Range>) -> (r: Vec<Range>)
    ensures
        r@ == spec_eliminated_ranges(ranges@),
{
    let mut ranges = ranges;
    let ghost start = ranges@;
    let mut i: usize = 0;
    while i < ranges.len()
        invariant
            i <= ranges@.len(),
            spec_eliminate_from(ranges@, i as int) == spec_eliminated_ranges(start),
        decreases ranges@.len(), ranges@.len() - i,
    {
        match find_touching(&ranges, i) {
            Some(j) => {
                let from = if ranges[i].from().0 < ranges[j].from().0 {
                    ranges[i].from()
                } else {
                    ranges[j].from()
                };
                let until = if ranges[i].until().0 < ranges[j].until().0 {
                    ranges[j].until()
                } else {
                    ranges[i].until()
                };
                if let Some(merged) = Range::new(from, until) {
                    ranges.set(i, merged);
                    ranges.remove(j);
                } else {
                    assert(false);
                    i += 1;
                }
            },
            None => {
                i += 1;
            },
        }
    }
    ranges
}

/// The intersections of `rs[i]` with each later range before index `j`, in
/// order.
pub open spec fn spec_common_row(rs: Seq<Range>, i: int, j: int) -> Seq<Range>
    decreases j,
{
    if i < 0 || j <= i + 1 || j > rs.len() {
        Seq::empty()
    } else {
        match spec_common_range(rs[i], rs[j - 1]) {
            Some(c) => spec_common_row(rs, i, j - 1).push(c),
            None => spec_common_row(rs, i, j - 1),
        }
    }
}

/// The intersections of every pair of ranges of `rs` whose first member
/// stands before index `i`, in the order of the pairs.
pub open spec fn spec_common_pairs(rs: Seq<Range>, i: int) -> Seq<Range>
    decreases i,
{
    if i <= 0 || i > rs.len() {
        Seq::empty()
    } else {
        spec_common_pairs(rs, i - 1) + spec_common_row(rs, i - 1, rs.len() as int)
    }
}

/// The offsets that at least two ranges of `rs` share, as flattened ranges.
pub open spec fn spec_common_ranges(rs: Seq<Range>) -> Seq<Range> {
    spec_eliminated_ranges(spec_common_pairs(rs, rs.len() as int))
}

/// The offsets that at least two of the ranges share, as flattened ranges.
pub fn common_ranges(ranges: &Vec<Range>) -> (r: Vec<Range>)
    ensures
        r@ == spec_common_ranges(ranges@),
{
    let mut found: Vec<Range> = Vec::new();
    let mut i: usize = 0;
    while i < ranges.len()
        invariant
            i <= ranges@.len(),
            found@ == spec_common_pairs(ranges@, i as int),
        decreases ranges.len() - i,
    {
        let ghost before = found@;
        let mut j: usize = i + 1;
        while j < ranges.len()
            invariant
                i < ranges@.len(),
                i + 1 <= j <= ranges@.len(),
                found@ == before + spec_common_row(ranges@, i as int, j as int),
            decreases ranges.len() - j,
        {
            if let Some(common) = common_range(ranges[i], ranges[j]) {
                found.push(common);
            }
            j += 1;
            assert(found@ == before + spec_common_row(ranges@, i as int, j as int));
        }
        i += 1;
    }
    eliminated_ranges(found)
}

/// The intersections of `x` with each of the first `j` ranges of `ys`, in
/// order.
pub open spec fn spec_cross_row(x: Range, ys: Seq<Range>, j: int) -> Seq<Range>
    decreases j,
{
    if j <= 0 || j > ys.len() {
        Seq::empty()
    } else {
        match spec_common_range(x, ys[j - 1]) {
            Some(c) => spec_cross_row(x, ys, j - 1).push(c),
            None => spec_cross_row(x, ys, j - 1),
        }
    }
}

/// The intersections of each of the first `i` ranges of `xs` with each
/// range of `ys`, in the order of the pairs.
pub open spec fn spec_cross_pairs(xs: Seq<Range>, ys: Seq<Range>, i: int) -> Seq<Range>
    decreases i,
{
    if i <= 0 || i > xs.len() {
        Seq::empty()
    } else {
        spec_cross_pairs(xs, ys, i - 1) + spec_cross_row(xs[i - 1], ys, ys.len() as int)
    }
}

/// The offsets that a range of `xs` and a range of `ys` both hold, as
/// flattened ranges.
pub open spec fn spec_intersect_ranges(xs: Seq<Range>, ys: Seq<Range>) -> Seq<Range> {
    spec_eliminated_ranges(spec_cross_pairs(xs, ys, xs.len() as int))
}

/// The offsets that a range of `xs` and a range of `ys` both hold, as
/// flattened ranges: nothing where either list is empty.
pub fn intersect_ranges(xs: &Vec<Range>, ys: &Vec<Range>) -> (r: Vec<Range>)
    ensures
        r@ == spec_intersect_ranges(xs@, ys@),
{
    let mut found: Vec<Range> = Vec::new();
    let mut i: usize = 0;
    while i < xs.len()
        invariant
            i <= xs@.len(),
            found@ == spec_cross_pairs(xs@, ys@, i as int),
        decreases xs.len() - i,
    {
        let ghost before = found@;
        let mut j: usize = 0;
        while j < ys.len()
            invariant
                i < xs@.len(),
                j <= ys@.len(),
                found@ == before + spec_cross_row(xs@[i as int], ys@, j as int),
            decreases ys.len() - j,
        {
            if let Some(common) = common_range(xs[i], ys[j]) {
                found.push(common);
            }
            j += 1;
            assert(found@ == before + spec_cross_row(xs@[i as int], ys@, j as int));
        }
        i += 1;
    }
    eliminated_ranges(found)
}

/// The first index from `j` on of a range of `ex` that overlaps `x`.
pub open spec fn first_hit(x: Range, ex: Seq<Range>, j: int) -> Option<int>
    decreases ex.len() - j,
{
    if j < 0 || j >= ex.len() {
        None
    } else if overlaps(x, ex[j]) {
        Some(j)
    } else {
        first_hit(x, ex, j + 1)
    }
}

/// What is left of `x` on either side of `c`: the offsets of `x` before
/// `c`, if there are any, and those after it, if there are any.
pub open spec fn residuals(x: Range, c: Range) -> Seq<Range> {
    let left = if x.lo() < c.lo() {
        seq![Range::spec_new(x.lo(), c.lo())]
    } else {
        Seq::empty()
    };
    let right = if c.hi() < x.hi() {
        seq![Range::spec_new(c.hi(), x.hi())]
    } else {
        Seq::empty()
    };
    left + right
}

/// The number of offsets in a range, zero if its bounds are out of order.
pub open spec fn span(x: Range) -> nat {
    if x.lo() < x.hi() {
        (x.hi() - x.lo()) as nat
    } else {
        0
    }
}

/// The work left when subtracting from the ranges of `rs` at index `i` or
/// later: twice their offsets, and one for each range.
pub open spec fn weight(rs: Seq<Range>, i: int) -> nat
    decreases rs.len() - i,
{
    if i < 0 || i >= rs.len() {
        0
    } else {
        2 * span(rs[i]) + 1 + weight(rs, i + 1)
    }
}

/// Subtracts from the ranges of `rs` at index `i` or later: a range that
/// overlaps one of `ex` is replaced by its residuals, which join the end of
/// the list and are subtracted from in their turn.
pub open spec fn spec_exclude_from(rs: Seq<Range>, ex: Seq<Range>, i: int) -> Seq<Range>
    decreases weight(rs, i),
    via exclude_decreases
{
    if i < 0 || i >= rs.len() {
        rs
    } else {
        match first_hit(rs[i], ex, 0) {
            None => spec_exclude_from(rs, ex, i + 1),
            Some(j) => if 0 <= j < ex.len() && overlaps(rs[i], ex[j]) {
                let common = Range::spec_new(
                    imax(rs[i].lo(), ex[j].lo()),
                    imin(rs[i].hi(), ex[j].hi()),
                );
                spec_exclude_from(rs.remove(i) + residuals(rs[i], common), ex, i)
            } else {
                rs
            },
        }
    }
}

/// Appending ranges adds their weight.
pub proof fn lemma_weight_append(rs: Seq<Range>, tail: Seq<Range>, i: int)
    requires
        0 <= i <= rs.len(),
    ensures
        weight(rs + tail, i) == weight(rs, i) + weight(tail, 0),
    decreases rs.len() - i,
{
    if i < rs.len() {
        lemma_weight_append(rs, tail, i + 1);
        assert((rs + tail)[i] == rs[i]);
    } else {
        lemma_weight_shift(rs, tail, 0);
    }
}

/// The weight of a list that follows another is its own weight.
pub proof fn lemma_weight_shift(rs: Seq<Range>, tail: Seq<Range>, k: int)
    requires
        0 <= k <= tail.len(),
    ensures
        weight(rs + tail, rs.len() + k) == weight(tail, k),
    decreases tail.len() - k,
{
    if k < tail.len() {
        lemma_weight_shift(rs, tail, k + 1);
        assert((rs + tail)[rs.len() + k] == tail[k]);
    }
}

/// Removing the range at `i` leaves the weight of the ranges after it.
pub proof fn lemma_weight_remove(rs: Seq<Range>, i: int, k: int)
    requires
        0 <= i < rs.len(),
        i <= k <= rs.len() - 1,
    ensures
        weight(rs.remove(i), k) == weight(rs, k + 1),
    decreases rs.len() - k,
{
    if k < rs.len() - 1 {
        lemma_weight_remove(rs, i, k + 1);
        assert(rs.remove(i)[k] == rs[k + 1]);
    }
}

/// The residuals of a range weigh less than the range.
pub proof fn lemma_weight_residuals(x: Range, c: Range)
    requires
        x.lo() <= c.lo() < c.hi() <= x.hi(),
    ensures
        weight(residuals(x, c), 0) < 2 * span(x) + 1,
{
    let res = residuals(x, c);
    reveal_with_fuel(weight, 3);
    if x.lo() < c.lo() && c.hi() < x.hi() {
        assert(res.len() == 2);
        assert(res[0] == Range::spec_new(x.lo(), c.lo()));
        assert(res[1] == Range::spec_new(c.hi(), x.hi()));
    } else if x.lo() < c.lo() {
        assert(res.len() == 1);
        assert(res[0] == Range::spec_new(x.lo(), c.lo()));
    } else if c.hi() < x.hi() {
        assert(res.len() == 1);
        assert(res[0] == Range::spec_new(c.hi(), x.hi()));
    } else {
        assert(res.len() == 0);
    }
}

/// Replacing an overlapping range by its residuals lowers the weight.
pub proof fn lemma_weight_step(rs: Seq<Range>, i: int, y: Range)
    requires
        0 <= i < rs.len(),
        overlaps(rs[i], y),
    ensures
        weight(
            rs.remove(i) + residuals(
                rs[i],
                Range::spec_new(imax(rs[i].lo(), y.lo()), imin(rs[i].hi(), y.hi())),
            ),
            i,
        ) < weight(rs, i),
{
    let common = Range::spec_new(imax(rs[i].lo(), y.lo()), imin(rs[i].hi(), y.hi()));
    let res = residuals(rs[i], common);
    rs.remove_ensures(i);
    lemma_weight_append(rs.remove(i), res, i);
    lemma_weight_remove(rs, i, i);
    lemma_weight_residuals(rs[i], common);
}

#[via_fn]
proof fn exclude_decreases(rs: Seq<Range>, ex: Seq<Range>, i: int) {
    if 0 <= i < rs.len() {
        match first_hit(rs[i], ex, 0) {
            None => {},
            Some(j) => {
                if 0 <= j < ex.len() && overlaps(rs[i], ex[j]) {
                    lemma_weight_step(rs, i, ex[j]);
                }
            },
        }
    }
}

/// The ranges of `from` with the ranges of `excludes` cut out of them,
/// flattened.
pub open spec fn spec_exclude_ranges(from: Seq<Range>, excludes: Seq<Range>) -> Seq<Range> {
    spec_eliminated_ranges(spec_exclude_from(from, excludes, 0))
}

/// What `first_hit` finds is the first overlapping range.
pub proof fn lemma_first_hit(x: Range, ex: Seq<Range>, j: int)
    requires
        0 <= j,
    ensures
        match first_hit(x, ex, j) {
            Some(k) => j <= k < ex.len() && overlaps(x, ex[k]),
            None => forall|m: int| j <= m < ex.len() ==> !overlaps(x, #[trigger] ex[m]),
        },
    decreases ex.len() - j,
{
    if j < ex.len() && !overlaps(x, ex[j]) {
        lemma_first_hit(x, ex, j + 1);
    }
}

fn find_hit(x: Range, excludes: &Vec<Range>) -> (r: Option<(usize, Range)>)
    ensures
        match r {
            Some((j, c)) => first_hit(x, excludes@, 0) == Some(j as int) && j < excludes@.len()
                && spec_common_range(x, excludes@[j as int]) == Some(c),
            None => first_hit(x, excludes@, 0) is None,
        },
{
    let mut j: usize = 0;
    while j < excludes.len()
        invariant
            j <= excludes@.len(),
            first_hit(x, excludes@, 0) == first_hit(x, excludes@, j as int),
        decreases excludes.len() - j,
    {
        if let Some(common) = common_range(x, excludes[j]) {
            return Some((j, common));
        }
        j += 1;
    }
    None
}

/// Cuts the ranges of `excludes` out of the ranges of `from`.  A range that
/// overlaps an excluded one is replaced by what is left of it on the left
/// and on the right of the overlap; empty residuals are dropped.  The
/// result is flattened.
pub fn exclude_ranges(from: Vec<Range>, excludes: &Vec<Range>) -> (r: Vec<Range>)
    ensures
        r@ == spec_exclude_ranges(from@, excludes@),
{
    let mut from = from;
    let ghost start = from@;
    let mut i: usize = 0;
    while i < from.len()
        invariant
            i <= from@.len(),
            spec_exclude_from(from@, excludes@, i as int) == spec_exclude_from(
                start,
                excludes@,
                0,
            ),
        decreases weight(from@, i as int),
    {
        let x = from[i];
        match find_hit(x, excludes) {
            Some((j, common)) => {
                proof {
                    lemma_weight_step(from@, i as int, excludes@[j as int]);
                }
                let ghost before = from@;
                if let Some(left) = Range::new(x.from(), common.from()) {
                    from.push(left);
                }
                if let Some(right) = Range::new(common.until(), x.until()) {
                    from.push(right);
                }
                from.remove(i);
                assert(from@ == before.remove(i as int) + residuals(x, common));
            },
            None => {
                i += 1;
            },
        }
    }
    eliminated_ranges(from)
}

} // verus!
