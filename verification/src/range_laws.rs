//! What holds of the interval algebra for every input.

use crate::models::{group_range_axioms, Range};
use crate::range_ops::{
    all_apart, apart_upto, covers, first_hit, first_touching, imax, imin, lemma_first_hit,
    lemma_first_touching, lemma_weight_step, overlaps, residuals, spec_common_range,
    spec_cross_pairs, spec_cross_row, spec_eliminate_from, spec_eliminated_ranges,
    spec_exclude_from, spec_exclude_ranges, spec_intersect_ranges, touches, weight,
};
use vstd::prelude::*;

verus! {

broadcast use group_range_axioms;

/// The intersection of two ranges does not depend on their order.
pub proof fn law_common_range_symmetric(a: Range, b: Range)
    ensures
        spec_common_range(a, b) == spec_common_range(b, a),
{
}

/// The intersection of two ranges holds exactly the offsets that both hold.
pub proof fn law_common_range_offsets(a: Range, b: Range, p: int)
    ensures
        match spec_common_range(a, b) {
            Some(c) => (c.lo() <= p < c.hi()) == (a.lo() <= p < a.hi() && b.lo() <= p < b.hi()),
            None => !(a.lo() <= p < a.hi() && b.lo() <= p < b.hi()),
        },
{
}

/// Merging two touching ranges in place keeps the offsets that the list
/// covers.
proof fn lemma_merge_step_covers(rs: Seq<Range>, i: int, j: int, p: int)
    requires
        0 <= i < rs.len(),
        0 <= j < rs.len(),
        i != j,
        touches(rs[i], rs[j]),
    ensures
        covers(
            rs.update(
                i,
                Range::spec_new(imin(rs[i].lo(), rs[j].lo()), imax(rs[i].hi(), rs[j].hi())),
            ).remove(j),
            p,
        ) == covers(rs, p),
{
    let merged = Range::spec_new(imin(rs[i].lo(), rs[j].lo()), imax(rs[i].hi(), rs[j].hi()));
    let u = rs.update(i, merged);
    let next = u.remove(j);
    u.remove_ensures(j);
    let at = if i < j {
        i
    } else {
        i - 1
    };
    assert(next[at] == merged);
    if covers(next, p) {
        let k = choose|k: int| 0 <= k < next.len() && (#[trigger] next[k]).lo() <= p < next[k].hi();
        let src = if k < j {
            k
        } else {
            k + 1
        };
        assert(next[k] == u[src]);
        if src == i {
            if rs[i].lo() <= p < rs[i].hi() {
            } else {
                assert(rs[j].lo() <= p < rs[j].hi());
            }
        } else {
            assert(rs[src].lo() <= p < rs[src].hi());
        }
        assert(covers(rs, p));
    }
    if covers(rs, p) {
        let k = choose|k: int| 0 <= k < rs.len() && (#[trigger] rs[k]).lo() <= p < rs[k].hi();
        if k == i || k == j {
            assert(next[at].lo() <= p < next[at].hi());
        } else {
            let dst = if k < j {
                k
            } else {
                k - 1
            };
            assert(next[dst] == rs[k]);
            assert(next[dst].lo() <= p < next[dst].hi());
        }
        assert(covers(next, p));
    }
}

/// Flattening keeps the offsets that the list covers.
pub proof fn lemma_eliminate_covers(rs: Seq<Range>, i: int, p: int)
    requires
        0 <= i <= rs.len(),
    ensures
        covers(spec_eliminate_from(rs, i), p) == covers(rs, p),
    decreases rs.len(), rs.len() - i,
{
    if i < rs.len() {
        lemma_first_touching(rs, i, 0);
        match first_touching(rs, i, 0) {
            None => {
                lemma_eliminate_covers(rs, i + 1, p);
            },
            Some(j) => {
                let merged = Range::spec_new(
                    imin(rs[i].lo(), rs[j].lo()),
                    imax(rs[i].hi(), rs[j].hi()),
                );
                let next = rs.update(i, merged).remove(j);
                rs.update(i, merged).remove_ensures(j);
                lemma_merge_step_covers(rs, i, j, p);
                lemma_eliminate_covers(next, i, p);
            },
        }
    }
}

/// Flattening from index `i` leaves no two ranges that touch, if none of
/// the ranges before `i` touched another.
pub proof fn lemma_eliminate_apart(rs: Seq<Range>, i: int)
    requires
        0 <= i <= rs.len(),
        apart_upto(rs, i),
    ensures
        all_apart(spec_eliminate_from(rs, i)),
    decreases rs.len(), rs.len() - i,
{
    if i < rs.len() {
        lemma_first_touching(rs, i, 0);
        match first_touching(rs, i, 0) {
            None => {
                assert forall|a: int, b: int|
                    0 <= a < i + 1 && 0 <= b < rs.len() && a != b implies !touches(
                    #[trigger] rs[a],
                    #[trigger] rs[b],
                ) by {
                    if a == i {
                        assert(!touches(rs[i], rs[b]));
                    }
                }
                lemma_eliminate_apart(rs, i + 1);
            },
            Some(j) => {
                let merged = Range::spec_new(
                    imin(rs[i].lo(), rs[j].lo()),
                    imax(rs[i].hi(), rs[j].hi()),
                );
                let u = rs.update(i, merged);
                let next = u.remove(j);
                u.remove_ensures(j);
                if j < i {
                    assert(!touches(rs[j], rs[i]));
                }
                assert forall|a: int, b: int|
                    0 <= a < i && 0 <= b < next.len() && a != b implies !touches(
                    #[trigger] next[a],
                    #[trigger] next[b],
                ) by {
                    assert(next[a] == rs[a]);
                    let sb = if b < j {
                        b
                    } else {
                        b + 1
                    };
                    assert(next[b] == u[sb]);
                    assert(!touches(rs[a], rs[i]));
                    assert(!touches(rs[a], rs[j]));
                    if sb != i {
                        assert(!touches(rs[a], rs[sb]));
                    }
                }
                lemma_eliminate_apart(next, i);
            },
        }
    }
}

/// Flattening changes nothing where no two ranges touch.
pub proof fn lemma_eliminate_fixed(rs: Seq<Range>, i: int)
    requires
        0 <= i,
        all_apart(rs),
    ensures
        spec_eliminate_from(rs, i) == rs,
    decreases rs.len() - i,
{
    if i < rs.len() {
        lemma_first_touching(rs, i, 0);
        match first_touching(rs, i, 0) {
            None => {},
            Some(j) => {
                assert(!touches(rs[i], rs[j]));
            },
        }
        lemma_eliminate_fixed(rs, i + 1);
    }
}

/// Flattening a list of ranges a second time changes nothing, and in the
/// flattened list no two ranges overlap or lie end to end.
pub proof fn law_eliminated_idempotent(xs: Seq<Range>)
    ensures
        spec_eliminated_ranges(spec_eliminated_ranges(xs)) == spec_eliminated_ranges(xs),
        all_apart(spec_eliminated_ranges(xs)),
        forall|a: int, b: int|
            0 <= a < b < spec_eliminated_ranges(xs).len() ==> !overlaps(
                #[trigger] spec_eliminated_ranges(xs)[a],
                #[trigger] spec_eliminated_ranges(xs)[b],
            ),
{
    lemma_eliminate_apart(xs, 0);
    lemma_eliminate_fixed(spec_eliminated_ranges(xs), 0);
    let out = spec_eliminated_ranges(xs);
    assert forall|a: int, b: int| 0 <= a < b < out.len() implies !overlaps(
        #[trigger] out[a],
        #[trigger] out[b],
    ) by {
        assert(!touches(out[a], out[b]));
    }
}

/// The flattened list covers exactly the offsets that the list covered.
pub proof fn law_eliminated_covers(xs: Seq<Range>, p: int)
    ensures
        covers(spec_eliminated_ranges(xs), p) == covers(xs, p),
{
    lemma_eliminate_covers(xs, 0, p);
}

/// Some of the first `n` ranges of `rs` holds the offset `p`.
pub open spec fn covers_upto(rs: Seq<Range>, n: int, p: int) -> bool {
    exists|k: int| 0 <= k < n && k < rs.len() && (#[trigger] rs[k]).lo() <= p < rs[k].hi()
}

/// A list with one more range covers what the list covers and what the
/// range holds.
proof fn lemma_covers_push(rs: Seq<Range>, r: Range, p: int)
    ensures
        covers(rs.push(r), p) == (covers(rs, p) || r.lo() <= p < r.hi()),
{
    let next = rs.push(r);
    if covers(next, p) {
        let k = choose|k: int| 0 <= k < next.len() && (#[trigger] next[k]).lo() <= p < next[k].hi();
        if k < rs.len() {
            assert(rs[k].lo() <= p < rs[k].hi());
        }
    }
    if covers(rs, p) {
        let k = choose|k: int| 0 <= k < rs.len() && (#[trigger] rs[k]).lo() <= p < rs[k].hi();
        assert(next[k].lo() <= p < next[k].hi());
    }
    if r.lo() <= p < r.hi() {
        assert(next[rs.len() as int].lo() <= p < next[rs.len() as int].hi());
    }
}

/// Two lists one after the other cover what either covers.
proof fn lemma_covers_concat(a: Seq<Range>, b: Seq<Range>, p: int)
    ensures
        covers(a + b, p) == (covers(a, p) || covers(b, p)),
{
    let both = a + b;
    if covers(both, p) {
        let k = choose|k: int| 0 <= k < both.len() && (#[trigger] both[k]).lo() <= p < both[k].hi();
        if k < a.len() {
            assert(a[k].lo() <= p < a[k].hi());
        } else {
            assert(b[k - a.len()].lo() <= p < b[k - a.len()].hi());
        }
    }
    if covers(a, p) {
        let k = choose|k: int| 0 <= k < a.len() && (#[trigger] a[k]).lo() <= p < a[k].hi();
        assert(both[k].lo() <= p < both[k].hi());
    }
    if covers(b, p) {
        let k = choose|k: int| 0 <= k < b.len() && (#[trigger] b[k]).lo() <= p < b[k].hi();
        assert(both[a.len() + k] == b[k]);
        assert(both[a.len() + k].lo() <= p < both[a.len() + k].hi());
    }
}

/// The intersections of `x` with the first `j` ranges of `ys` cover the
/// offsets that `x` and one of those ranges both hold.
proof fn lemma_cross_row_covers(x: Range, ys: Seq<Range>, j: int, p: int)
    requires
        0 <= j <= ys.len(),
    ensures
        covers(spec_cross_row(x, ys, j), p) == (x.lo() <= p < x.hi() && covers_upto(ys, j, p)),
    decreases j,
{
    if j > 0 {
        lemma_cross_row_covers(x, ys, j - 1, p);
        let before = spec_cross_row(x, ys, j - 1);
        let y = ys[j - 1];
        match spec_common_range(x, y) {
            Some(c) => {
                lemma_covers_push(before, c, p);
            },
            None => {},
        }
        if covers_upto(ys, j, p) {
            let k = choose|k: int|
                0 <= k < j && k < ys.len() && (#[trigger] ys[k]).lo() <= p < ys[k].hi();
            if k < j - 1 {
                assert(covers_upto(ys, j - 1, p));
            }
        }
        if covers_upto(ys, j - 1, p) {
            let k = choose|k: int|
                0 <= k < j - 1 && k < ys.len() && (#[trigger] ys[k]).lo() <= p < ys[k].hi();
            assert(ys[k].lo() <= p < ys[k].hi());
        }
        if y.lo() <= p < y.hi() {
            assert(ys[j - 1].lo() <= p < ys[j - 1].hi());
        }
    } else {
        assert(spec_cross_row(x, ys, j) =~= Seq::<Range>::empty());
    }
}

/// The intersections of the first `i` ranges of `xs` with the ranges of
/// `ys` cover the offsets that one of those ranges and `ys` both cover.
proof fn lemma_cross_pairs_covers(xs: Seq<Range>, ys: Seq<Range>, i: int, p: int)
    requires
        0 <= i <= xs.len(),
    ensures
        covers(spec_cross_pairs(xs, ys, i), p) == (covers_upto(xs, i, p) && covers(ys, p)),
    decreases i,
{
    if i > 0 {
        lemma_cross_pairs_covers(xs, ys, i - 1, p);
        let x = xs[i - 1];
        lemma_cross_row_covers(x, ys, ys.len() as int, p);
        lemma_covers_concat(
            spec_cross_pairs(xs, ys, i - 1),
            spec_cross_row(x, ys, ys.len() as int),
            p,
        );
        assert(covers_upto(ys, ys.len() as int, p) == covers(ys, p)) by {
            if covers(ys, p) {
                let k = choose|k: int|
                    0 <= k < ys.len() && (#[trigger] ys[k]).lo() <= p < ys[k].hi();
                assert(ys[k].lo() <= p < ys[k].hi());
            }
            if covers_upto(ys, ys.len() as int, p) {
                let k = choose|k: int|
                    0 <= k < ys.len() && k < ys.len() && (#[trigger] ys[k]).lo() <= p
                        < ys[k].hi();
                assert(ys[k].lo() <= p < ys[k].hi());
            }
        }
        if covers_upto(xs, i, p) {
            let k = choose|k: int|
                0 <= k < i && k < xs.len() && (#[trigger] xs[k]).lo() <= p < xs[k].hi();
            if k < i - 1 {
                assert(covers_upto(xs, i - 1, p));
            }
        }
        if covers_upto(xs, i - 1, p) {
            let k = choose|k: int|
                0 <= k < i - 1 && k < xs.len() && (#[trigger] xs[k]).lo() <= p < xs[k].hi();
            assert(xs[k].lo() <= p < xs[k].hi());
        }
        if x.lo() <= p < x.hi() {
            assert(xs[i - 1].lo() <= p < xs[i - 1].hi());
        }
    } else {
        assert(spec_cross_pairs(xs, ys, i) =~= Seq::<Range>::empty());
    }
}

/// `intersect_ranges` gives exactly the offsets that both lists cover, and
/// no two of its ranges touch.  Where either list is empty it gives nothing.
pub proof fn law_intersect_covers(xs: Seq<Range>, ys: Seq<Range>, p: int)
    ensures
        covers(spec_intersect_ranges(xs, ys), p) == (covers(xs, p) && covers(ys, p)),
        all_apart(spec_intersect_ranges(xs, ys)),
        ys.len() == 0 || xs.len() == 0 ==> spec_intersect_ranges(xs, ys) == Seq::<Range>::empty(),
{
    let pairs = spec_cross_pairs(xs, ys, xs.len() as int);
    lemma_cross_pairs_covers(xs, ys, xs.len() as int, p);
    lemma_eliminate_covers(pairs, 0, p);
    lemma_eliminate_apart(pairs, 0);
    if covers(xs, p) {
        let k = choose|k: int| 0 <= k < xs.len() && (#[trigger] xs[k]).lo() <= p < xs[k].hi();
        assert(xs[k].lo() <= p < xs[k].hi());
        assert(covers_upto(xs, xs.len() as int, p));
    }
    if covers_upto(xs, xs.len() as int, p) {
        let k = choose|k: int|
            0 <= k < xs.len() && k < xs.len() && (#[trigger] xs[k]).lo() <= p < xs[k].hi();
        assert(xs[k].lo() <= p < xs[k].hi());
    }
    if ys.len() == 0 || xs.len() == 0 {
        lemma_cross_pairs_empty(xs, ys, xs.len() as int);
        assert(pairs =~= Seq::<Range>::empty());
        assert(spec_eliminate_from(pairs, 0) == pairs);
    }
}

/// Without ranges on one side there are no intersections.
proof fn lemma_cross_pairs_empty(xs: Seq<Range>, ys: Seq<Range>, i: int)
    requires
        0 <= i <= xs.len(),
        ys.len() == 0 || xs.len() == 0,
    ensures
        spec_cross_pairs(xs, ys, i) =~= Seq::<Range>::empty(),
    decreases i,
{
    if i > 0 {
        lemma_cross_pairs_empty(xs, ys, i - 1);
        assert(spec_cross_row(xs[i - 1], ys, ys.len() as int) =~= Seq::<Range>::empty());
    }
}

/// None of the first `n` ranges of `rs` overlaps a range of `ex`.
pub open spec fn clear_upto(rs: Seq<Range>, ex: Seq<Range>, n: int) -> bool {
    forall|a: int, m: int|
        0 <= a < n && a < rs.len() && 0 <= m < ex.len() ==> !overlaps(
            #[trigger] rs[a],
            #[trigger] ex[m],
        )
}

/// After subtracting, no range overlaps an excluded one.
proof fn lemma_exclude_clear(rs: Seq<Range>, ex: Seq<Range>, i: int)
    requires
        0 <= i <= rs.len(),
        clear_upto(rs, ex, i),
    ensures
        clear_upto(
            spec_exclude_from(rs, ex, i),
            ex,
            spec_exclude_from(rs, ex, i).len() as int,
        ),
    decreases weight(rs, i),
{
    if i < rs.len() {
        lemma_first_hit(rs[i], ex, 0);
        match first_hit(rs[i], ex, 0) {
            None => {
                lemma_exclude_clear(rs, ex, i + 1);
            },
            Some(j) => {
                let common = Range::spec_new(
                    imax(rs[i].lo(), ex[j].lo()),
                    imin(rs[i].hi(), ex[j].hi()),
                );
                let next = rs.remove(i) + residuals(rs[i], common);
                rs.remove_ensures(i);
                lemma_weight_step(rs, i, ex[j]);
                assert forall|a: int, m: int|
                    0 <= a < i && a < next.len() && 0 <= m < ex.len() implies !overlaps(
                    #[trigger] next[a],
                    #[trigger] ex[m],
                ) by {
                    assert(next[a] == rs[a]);
                }
                lemma_exclude_clear(next, ex, i);
            },
        }
    }
}

/// Subtracting only removes offsets, and keeps every offset that no
/// excluded range holds.
proof fn lemma_exclude_covers(rs: Seq<Range>, ex: Seq<Range>, i: int, p: int)
    requires
        0 <= i <= rs.len(),
    ensures
        covers(spec_exclude_from(rs, ex, i), p) ==> covers(rs, p),
        covers(rs, p) && !covers(ex, p) ==> covers(spec_exclude_from(rs, ex, i), p),
    decreases weight(rs, i),
{
    if i < rs.len() {
        lemma_first_hit(rs[i], ex, 0);
        match first_hit(rs[i], ex, 0) {
            None => {
                lemma_exclude_covers(rs, ex, i + 1, p);
            },
            Some(j) => {
                let x = rs[i];
                let common = Range::spec_new(imax(x.lo(), ex[j].lo()), imin(x.hi(), ex[j].hi()));
                let res = residuals(x, common);
                let kept = rs.remove(i);
                let next = kept + res;
                rs.remove_ensures(i);
                lemma_weight_step(rs, i, ex[j]);
                lemma_exclude_covers(next, ex, i, p);
                if covers(next, p) {
                    let k = choose|k: int|
                        0 <= k < next.len() && (#[trigger] next[k]).lo() <= p < next[k].hi();
                    if k < kept.len() {
                        let src = if k < i {
                            k
                        } else {
                            k + 1
                        };
                        assert(next[k] == rs[src]);
                        assert(rs[src].lo() <= p < rs[src].hi());
                    } else {
                        assert(next[k] == res[k - kept.len()]);
                        assert(rs[i].lo() <= p < rs[i].hi());
                    }
                    assert(covers(rs, p));
                }
                if covers(rs, p) && !covers(ex, p) {
                    let k = choose|k: int|
                        0 <= k < rs.len() && (#[trigger] rs[k]).lo() <= p < rs[k].hi();
                    if k == i {
                        assert(!(ex[j].lo() <= p < ex[j].hi()));
                        if p < ex[j].lo() {
                            assert(res[0] == Range::spec_new(x.lo(), common.lo()));
                            assert(next[kept.len() as int] == res[0]);
                            assert(next[kept.len() as int].lo() <= p < next[kept.len() as int].hi());
                        } else {
                            let last = res.len() - 1;
                            assert(res[last] == Range::spec_new(common.hi(), x.hi()));
                            assert(next[kept.len() + last] == res[last]);
                            assert(next[kept.len() + last].lo() <= p < next[kept.len()
                                + last].hi());
                        }
                    } else {
                        let dst = if k < i {
                            k
                        } else {
                            k - 1
                        };
                        assert(next[dst] == rs[k]);
                        assert(next[dst].lo() <= p < next[dst].hi());
                    }
                    assert(covers(next, p));
                }
            },
        }
    }
}

/// No range that `exclude_ranges` gives overlaps an excluded range.
pub proof fn law_exclude_no_overlap(xs: Seq<Range>, ys: Seq<Range>)
    ensures
        forall|k: int, m: int|
            0 <= k < spec_exclude_ranges(xs, ys).len() && 0 <= m < ys.len() ==> !overlaps(
                #[trigger] spec_exclude_ranges(xs, ys)[k],
                #[trigger] ys[m],
            ),
{
    let cut = spec_exclude_from(xs, ys, 0);
    let out = spec_exclude_ranges(xs, ys);
    lemma_exclude_clear(xs, ys, 0);
    assert forall|k: int, m: int| 0 <= k < out.len() && 0 <= m < ys.len() implies !overlaps(
        #[trigger] out[k],
        #[trigger] ys[m],
    ) by {
        if overlaps(out[k], ys[m]) {
            let p = imax(out[k].lo(), ys[m].lo());
            assert(out[k].lo() <= p < out[k].hi());
            assert(covers(out, p));
            lemma_eliminate_covers(cut, 0, p);
            let src = choose|s: int| 0 <= s < cut.len() && (#[trigger] cut[s]).lo() <= p < cut[s].hi();
            assert(overlaps(cut[src], ys[m]));
        }
    }
}

/// `exclude_ranges` gives exactly the offsets that the first list covers
/// and the second does not, and no two of its ranges touch.
pub proof fn law_exclude_covers(xs: Seq<Range>, ys: Seq<Range>, p: int)
    ensures
        covers(spec_exclude_ranges(xs, ys), p) == (covers(xs, p) && !covers(ys, p)),
        all_apart(spec_exclude_ranges(xs, ys)),
{
    let cut = spec_exclude_from(xs, ys, 0);
    let out = spec_exclude_ranges(xs, ys);
    lemma_exclude_covers(xs, ys, 0, p);
    lemma_eliminate_covers(cut, 0, p);
    lemma_eliminate_apart(cut, 0);
    if covers(out, p) && covers(ys, p) {
        law_exclude_no_overlap(xs, ys);
        let k = choose|k: int| 0 <= k < out.len() && (#[trigger] out[k]).lo() <= p < out[k].hi();
        let m = choose|m: int| 0 <= m < ys.len() && (#[trigger] ys[m]).lo() <= p < ys[m].hi();
        assert(overlaps(out[k], ys[m]));
    }
}

} // verus!
