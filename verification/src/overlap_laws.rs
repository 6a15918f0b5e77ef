//! What holds of every layout that overlap resolution gives.

use crate::decoration::{DecoKind, DecoView};
use crate::models::{group_range_axioms, Range};
use crate::overlap::{
    kind_prefix, of_kind, place, remainders, resolve_upto, spec_handle_overlapping, spec_process_overlap, spec_sort_by_kind, split, split_all,
};
use crate::range_laws::{law_exclude_covers, law_exclude_no_overlap};
use crate::range_ops::{covers, overlaps, spec_common_range, spec_exclude_ranges, touches};
use vstd::prelude::*;

verus! {

broadcast use group_range_axioms;

/// Any two decorations of the layout that share an offset are marked: at
/// least one of them is clipped.
pub open spec fn overlaps_explicit(res: Seq<DecoView<Range>>) -> bool {
    forall|i: int, j: int|
        0 <= i < j < res.len() && !(#[trigger] res[i]).overlapped && !(#[trigger] res[j]).overlapped
            ==> !overlaps(res[i].range, res[j].range)
}

/// The decorations stand in the order of their kinds.
pub open spec fn kind_sorted(res: Seq<DecoView<Range>>) -> bool {
    forall|i: int, j: int|
        0 <= i < j < res.len() ==> (#[trigger] res[i]).kind.spec_order() <= (
        #[trigger] res[j]).kind.spec_order()
}

/// No decoration has a kind after place `m` of the order.
pub open spec fn kinds_at_most(res: Seq<DecoView<Range>>, m: int) -> bool {
    forall|i: int| 0 <= i < res.len() ==> (#[trigger] res[i]).kind.spec_order() <= m
}

/// No decoration has a kind before place `m` of the order.
pub open spec fn kinds_at_least(res: Seq<DecoView<Range>>, m: int) -> bool {
    forall|i: int| 0 <= i < res.len() ==> (#[trigger] res[i]).kind.spec_order() >= m
}

/// If `a` holds an offset at all, `b` holds every offset of `a`.
pub open spec fn inside(a: Range, b: Range) -> bool {
    a.lo() < a.hi() ==> b.lo() <= a.lo() && a.hi() <= b.hi()
}

/// A decoration that is not clipped shares no offset with `cur` and lies
/// inside an unclipped decoration among the first `n` of `res`.
pub open spec fn sourced(e: DecoView<Range>, res: Seq<DecoView<Range>>, n: int, cur: Range) -> bool {
    e.overlapped || (!overlaps(e.range, cur) && exists|o: int|
        0 <= o < n && o < res.len() && !(#[trigger] res[o]).overlapped && inside(
            e.range,
            res[o].range,
        ))
}

/// A split loses no offset: the clipped part and the remainders together
/// hold exactly the offsets of the earlier decoration.
pub proof fn law_split_keeps_offsets(prev: DecoView<Range>, cur: Range, p: int)
    ensures
        match spec_process_overlap(prev, cur) {
            None => true,
            Some((clipped, rest)) => (prev.range.lo() <= p < prev.range.hi()) == (clipped.range.lo()
                <= p < clipped.range.hi() || exists|k: int|
                0 <= k < rest.len() && (#[trigger] rest[k]).range.lo() <= p < rest[k].range.hi()),
        },
{
    if !prev.overlapped {
        match spec_common_range(cur, prev.range) {
            None => {},
            Some(common) => {
                let whole = seq![prev.range];
                let cut = seq![common];
                let left = spec_exclude_ranges(whole, cut);
                let rest = remainders(prev, left);
                law_exclude_covers(whole, cut, p);
                assert(whole[0] == prev.range);
                assert(cut[0] == common);
                if prev.range.lo() <= p < prev.range.hi() {
                    assert(whole[0].lo() <= p < whole[0].hi());
                    assert(covers(whole, p));
                }
                if common.lo() <= p < common.hi() {
                    assert(cut[0].lo() <= p < cut[0].hi());
                    assert(covers(cut, p));
                }
                if covers(cut, p) {
                    let k = choose|k: int|
                        0 <= k < cut.len() && (#[trigger] cut[k]).lo() <= p < cut[k].hi();
                    assert(cut[k] == common);
                }
                if covers(whole, p) {
                    let k = choose|k: int|
                        0 <= k < whole.len() && (#[trigger] whole[k]).lo() <= p < whole[k].hi();
                    assert(whole[k] == prev.range);
                }
                if covers(left, p) {
                    let k = choose|k: int|
                        0 <= k < left.len() && (#[trigger] left[k]).lo() <= p < left[k].hi();
                    assert(rest[k].range == left[k]);
                    assert(rest[k].range.lo() <= p < rest[k].range.hi());
                }
                if exists|k: int|
                    0 <= k < rest.len() && (#[trigger] rest[k]).range.lo() <= p
                        < rest[k].range.hi() {
                    let k = choose|k: int|
                        0 <= k < rest.len() && (#[trigger] rest[k]).range.lo() <= p
                            < rest[k].range.hi();
                    assert(rest[k].range == left[k]);
                    assert(left[k].lo() <= p < left[k].hi());
                    assert(covers(left, p));
                }
            },
        }
    }
}

/// When an earlier decoration is split, the clipped part is marked and
/// holds exactly the offsets that it shares with the later range; each
/// remainder is unmarked, lies inside the earlier range and shares no
/// offset with the later range or with another remainder.
pub proof fn law_split_parts(prev: DecoView<Range>, cur: Range)
    ensures
        match spec_process_overlap(prev, cur) {
            None => prev.overlapped || !overlaps(prev.range, cur),
            Some((clipped, rest)) => {
                &&& !prev.overlapped
                &&& clipped.overlapped
                &&& Some(clipped.range) == spec_common_range(cur, prev.range)
                &&& clipped.kind == prev.kind
                &&& forall|k: int|
                    0 <= k < rest.len() ==> {
                        &&& !(#[trigger] rest[k]).overlapped
                        &&& rest[k].kind == prev.kind
                        &&& inside(rest[k].range, prev.range)
                        &&& !overlaps(rest[k].range, cur)
                    }
                &&& forall|a: int, b: int|
                    0 <= a < b < rest.len() ==> !overlaps(
                        (#[trigger] rest[a]).range,
                        (#[trigger] rest[b]).range,
                    )
            },
        },
{
    if !prev.overlapped {
        match spec_common_range(cur, prev.range) {
            None => {},
            Some(common) => {
                let whole = seq![prev.range];
                let cut = seq![common];
                let left = spec_exclude_ranges(whole, cut);
                let rest = remainders(prev, left);
                law_exclude_no_overlap(whole, cut);
                assert forall|k: int| 0 <= k < rest.len() implies {
                    &&& !(#[trigger] rest[k]).overlapped
                    &&& rest[k].kind == prev.kind
                    &&& inside(rest[k].range, prev.range)
                    &&& !overlaps(rest[k].range, cur)
                } by {
                    let r = left[k];
                    assert(rest[k].range == r);
                    if r.lo() < r.hi() {
                        law_exclude_covers(whole, cut, r.lo());
                        law_exclude_covers(whole, cut, r.hi() - 1);
                        assert(left[k].lo() <= r.lo() < left[k].hi());
                        assert(covers(left, r.lo()));
                        assert(left[k].lo() <= r.hi() - 1 < left[k].hi());
                        assert(covers(left, r.hi() - 1));
                        assert(covers(whole, r.lo()));
                        assert(covers(whole, r.hi() - 1));
                        assert(whole[0] == prev.range);
                    }
                    assert(!overlaps(left[k], cut[0]));
                }
                law_exclude_covers(whole, cut, 0);
                assert forall|a: int, b: int| 0 <= a < b < rest.len() implies !overlaps(
                    (#[trigger] rest[a]).range,
                    (#[trigger] rest[b]).range,
                ) by {
                    assert(!touches(left[a], left[b]));
                }
            },
        }
    }
}

/// What stands in the place of a decoration after a split.
proof fn lemma_split_props(prev: DecoView<Range>, cur: Range, res: Seq<DecoView<Range>>, o: int)
    requires
        0 <= o < res.len(),
        res[o] == prev,
    ensures
        forall|k: int|
            0 <= k < split(prev, cur).len() ==> (#[trigger] split(prev, cur)[k]).kind == prev.kind
                && sourced(split(prev, cur)[k], res, o + 1, cur),
        forall|a: int, b: int|
            0 <= a < b < split(prev, cur).len() && !(#[trigger] split(prev, cur)[a]).overlapped && !(
            #[trigger] split(prev, cur)[b]).overlapped ==> !overlaps(
                split(prev, cur)[a].range,
                split(prev, cur)[b].range,
            ),
{
    law_split_parts(prev, cur);
    let parts = split(prev, cur);
    match spec_process_overlap(prev, cur) {
        None => {
            assert forall|k: int| 0 <= k < parts.len() implies (#[trigger] parts[k]).kind
                == prev.kind && sourced(parts[k], res, o + 1, cur) by {
                assert(parts[k] == prev);
                if !prev.overlapped {
                    assert(!res[o].overlapped && inside(parts[k].range, res[o].range));
                }
            }
        },
        Some((clipped, rest)) => {
            assert forall|k: int| 0 <= k < parts.len() implies (#[trigger] parts[k]).kind
                == prev.kind && sourced(parts[k], res, o + 1, cur) by {
                if k > 0 {
                    assert(parts[k] == rest[k - 1]);
                    assert(!res[o].overlapped && inside(parts[k].range, res[o].range));
                }
            }
            assert forall|a: int, b: int|
                0 <= a < b < parts.len() && !(#[trigger] parts[a]).overlapped && !(
                #[trigger] parts[b]).overlapped implies !overlaps(parts[a].range, parts[b].range) by {
                assert(parts[b] == rest[b - 1]);
                if a > 0 {
                    assert(parts[a] == rest[a - 1]);
                }
            }
        },
    }
}

/// Splitting a layout with explicit overlaps gives one, whose unclipped
/// decorations share no offset with the splitting range.
proof fn lemma_split_all_explicit(res: Seq<DecoView<Range>>, cur: Range, n: int)
    requires
        overlaps_explicit(res),
        0 <= n <= res.len(),
    ensures
        overlaps_explicit(split_all(res, cur, n)),
        forall|k: int|
            0 <= k < split_all(res, cur, n).len() ==> sourced(
                #[trigger] split_all(res, cur, n)[k],
                res,
                n,
                cur,
            ),
    decreases n,
{
    if n > 0 {
        let before = split_all(res, cur, n - 1);
        let parts = split(res[n - 1], cur);
        let all = split_all(res, cur, n);
        lemma_split_all_explicit(res, cur, n - 1);
        lemma_split_props(res[n - 1], cur, res, n - 1);
        assert forall|k: int| 0 <= k < all.len() implies sourced(#[trigger] all[k], res, n, cur) by {
            if k < before.len() {
                assert(all[k] == before[k]);
                assert(sourced(before[k], res, n - 1, cur));
            } else {
                assert(all[k] == parts[k - before.len()]);
            }
        }
        assert forall|i: int, j: int|
            0 <= i < j < all.len() && !(#[trigger] all[i]).overlapped && !(
            #[trigger] all[j]).overlapped implies !overlaps(all[i].range, all[j].range) by {
            if j < before.len() {
                assert(all[i] == before[i]);
                assert(all[j] == before[j]);
            } else if i >= before.len() {
                assert(all[i] == parts[i - before.len()]);
                assert(all[j] == parts[j - before.len()]);
            } else {
                assert(all[i] == before[i]);
                assert(all[j] == parts[j - before.len()]);
                assert(sourced(before[i], res, n - 1, cur));
                assert(sourced(parts[j - before.len()], res, n, cur));
                let o = choose|o: int|
                    0 <= o < n - 1 && o < res.len() && !(#[trigger] res[o]).overlapped && inside(
                        all[i].range,
                        res[o].range,
                    );
                law_split_parts(res[n - 1], cur);
                assert(!res[n - 1].overlapped) by {
                    match spec_process_overlap(res[n - 1], cur) {
                        None => {
                            assert(parts[j - before.len()] == res[n - 1]);
                        },
                        Some((clipped, rest)) => {},
                    }
                }
                assert(inside(all[j].range, res[n - 1].range)) by {
                    match spec_process_overlap(res[n - 1], cur) {
                        None => {
                            assert(parts[j - before.len()] == res[n - 1]);
                        },
                        Some((clipped, rest)) => {
                            let m = j - before.len();
                            assert(m > 0);
                            assert(parts[m] == rest[m - 1]);
                        },
                    }
                }
                assert(!overlaps(res[o].range, res[n - 1].range));
            }
        }
    }
}

/// Placing a decoration keeps the overlaps explicit.
proof fn lemma_place_explicit(res: Seq<DecoView<Range>>, cur: DecoView<Range>)
    requires
        overlaps_explicit(res),
    ensures
        overlaps_explicit(place(res, cur)),
{
    if !res.contains(cur) {
        let parts = split_all(res, cur.range, res.len() as int);
        let out = parts.push(cur);
        lemma_split_all_explicit(res, cur.range, res.len() as int);
        assert forall|i: int, j: int|
            0 <= i < j < out.len() && !(#[trigger] out[i]).overlapped && !(
            #[trigger] out[j]).overlapped implies !overlaps(out[i].range, out[j].range) by {
            assert(out[i] == parts[i]);
            if j < parts.len() {
                assert(out[j] == parts[j]);
            } else {
                assert(sourced(parts[i], res, res.len() as int, cur.range));
            }
        }
    }
}

/// Every layout of placed decorations has its overlaps explicit.
proof fn lemma_resolve_explicit(ds: Seq<DecoView<Range>>, n: int)
    ensures
        overlaps_explicit(resolve_upto(ds, n)),
    decreases n,
{
    if 0 < n <= ds.len() {
        lemma_resolve_explicit(ds, n - 1);
        lemma_place_explicit(resolve_upto(ds, n - 1), ds[n - 1]);
    }
}

/// In the layout that overlap resolution gives, no two decorations that
/// are both unmarked share an offset: wherever two decorations overlap,
/// at least one of them was clipped to the shared part and marked.  So no
/// two unmarked decorations have the same range either.
pub proof fn law_overlaps_explicit(ds: Seq<DecoView<Range>>)
    ensures
        overlaps_explicit(spec_handle_overlapping(ds)),
{
    let sorted = spec_sort_by_kind(ds);
    lemma_resolve_explicit(sorted, sorted.len() as int);
}

/// The decorations of one kind all have that kind.
proof fn lemma_kind_prefix(ds: Seq<DecoView<Range>>, k: DecoKind, n: int)
    ensures
        forall|i: int| 0 <= i < kind_prefix(ds, k, n).len() ==> (#[trigger] kind_prefix(ds, k, n)[i]).kind == k,
    decreases n,
{
    if 0 < n <= ds.len() {
        lemma_kind_prefix(ds, k, n - 1);
    }
}

/// Decorations of later kinds may follow decorations of earlier kinds.
proof fn lemma_concat_sorted(a: Seq<DecoView<Range>>, b: Seq<DecoView<Range>>, m: int)
    requires
        kind_sorted(a),
        kinds_at_most(a, m),
        kind_sorted(b),
        kinds_at_least(b, m),
    ensures
        kind_sorted(a + b),
{
    let c = a + b;
    assert forall|i: int, j: int| 0 <= i < j < c.len() implies (#[trigger] c[i]).kind.spec_order() <= (
    #[trigger] c[j]).kind.spec_order() by {
        if j < a.len() {
            assert(c[i] == a[i] && c[j] == a[j]);
        } else if i >= a.len() {
            assert(c[i] == b[i - a.len()] && c[j] == b[j - a.len()]);
        } else {
            assert(c[i] == a[i] && c[j] == b[j - a.len()]);
        }
    }
}

/// Ordering by kind gives the kinds in order.
pub proof fn lemma_sort_sorted(ds: Seq<DecoView<Range>>)
    ensures
        kind_sorted(spec_sort_by_kind(ds)),
{
    let n = ds.len() as int;
    lemma_kind_prefix(ds, DecoKind::Lifetime, n);
    lemma_kind_prefix(ds, DecoKind::ImmBorrow, n);
    lemma_kind_prefix(ds, DecoKind::MutBorrow, n);
    lemma_kind_prefix(ds, DecoKind::Move, n);
    lemma_kind_prefix(ds, DecoKind::Call, n);
    lemma_kind_prefix(ds, DecoKind::SharedMut, n);
    lemma_kind_prefix(ds, DecoKind::Outlive, n);
    let lifetimes = of_kind(ds, DecoKind::Lifetime);
    let with_shared = lifetimes + of_kind(ds, DecoKind::ImmBorrow);
    let with_borrows = with_shared + of_kind(ds, DecoKind::MutBorrow);
    let with_moves = with_borrows + of_kind(ds, DecoKind::Move);
    let with_calls = with_moves + of_kind(ds, DecoKind::Call);
    let with_hazards = with_calls + of_kind(ds, DecoKind::SharedMut);
    lemma_concat_sorted(lifetimes, of_kind(ds, DecoKind::ImmBorrow), 1);
    lemma_concat_sorted(with_shared, of_kind(ds, DecoKind::MutBorrow), 2);
    lemma_concat_sorted(with_borrows, of_kind(ds, DecoKind::Move), 3);
    lemma_concat_sorted(with_moves, of_kind(ds, DecoKind::Call), 4);
    lemma_concat_sorted(with_calls, of_kind(ds, DecoKind::SharedMut), 5);
    lemma_concat_sorted(with_hazards, of_kind(ds, DecoKind::Outlive), 6);
}

/// Splitting keeps the kinds in order and adds no later kind.
proof fn lemma_split_all_sorted(res: Seq<DecoView<Range>>, cur: Range, n: int, m: int)
    requires
        kind_sorted(res),
        kinds_at_most(res, m),
        0 <= n <= res.len(),
    ensures
        kind_sorted(split_all(res, cur, n)),
        kinds_at_most(split_all(res, cur, n), m),
        n > 0 ==> kinds_at_most(split_all(res, cur, n), res[n - 1].kind.spec_order()),
    decreases n,
{
    if n > 0 {
        let before = split_all(res, cur, n - 1);
        let parts = split(res[n - 1], cur);
        let all = split_all(res, cur, n);
        lemma_split_all_sorted(res, cur, n - 1, m);
        lemma_split_props(res[n - 1], cur, res, n - 1);
        let top = res[n - 1].kind.spec_order();
        assert forall|i: int| 0 <= i < all.len() implies (#[trigger] all[i]).kind.spec_order()
            <= top by {
            if i < before.len() {
                assert(all[i] == before[i]);
                assert(n - 1 > 0);
                assert(res[n - 2].kind.spec_order() <= res[n - 1].kind.spec_order());
            } else {
                assert(all[i] == parts[i - before.len()]);
            }
        }
        assert forall|i: int, j: int| 0 <= i < j < all.len() implies (
        #[trigger] all[i]).kind.spec_order() <= (#[trigger] all[j]).kind.spec_order() by {
            if j < before.len() {
                assert(all[i] == before[i] && all[j] == before[j]);
            } else {
                assert(all[j] == parts[j - before.len()]);
            }
        }
    }
}

/// Placing decorations that come in the order of their kinds gives a
/// layout in the order of the kinds.
proof fn lemma_resolve_sorted(ds: Seq<DecoView<Range>>, n: int)
    requires
        kind_sorted(ds),
        0 <= n <= ds.len(),
    ensures
        kind_sorted(resolve_upto(ds, n)),
        n > 0 ==> kinds_at_most(resolve_upto(ds, n), ds[n - 1].kind.spec_order()),
    decreases n,
{
    if n > 0 {
        let res = resolve_upto(ds, n - 1);
        let cur = ds[n - 1];
        let top = cur.kind.spec_order();
        lemma_resolve_sorted(ds, n - 1);
        assert(kinds_at_most(res, top)) by {
            if n - 1 > 0 {
                assert(ds[n - 2].kind.spec_order() <= ds[n - 1].kind.spec_order());
            }
        }
        if !res.contains(cur) {
            let parts = split_all(res, cur.range, res.len() as int);
            let out = parts.push(cur);
            lemma_split_all_sorted(res, cur.range, res.len() as int, top);
            assert forall|i: int, j: int| 0 <= i < j < out.len() implies (
            #[trigger] out[i]).kind.spec_order() <= (#[trigger] out[j]).kind.spec_order() by {
                assert(out[i] == parts[i]);
                if j < parts.len() {
                    assert(out[j] == parts[j]);
                }
            }
            assert forall|i: int| 0 <= i < out.len() implies (#[trigger] out[i]).kind.spec_order()
                <= top by {
                if i < parts.len() {
                    assert(out[i] == parts[i]);
                }
            }
        }
    }
}

/// The layout that overlap resolution gives stands in the order of the
/// kinds: `Lifetime`, `ImmBorrow`, `MutBorrow`, `Move`, `Call`,
/// `SharedMut`, `Outlive`.
pub proof fn law_layout_sorted(ds: Seq<DecoView<Range>>)
    ensures
        kind_sorted(spec_handle_overlapping(ds)),
{
    let sorted = spec_sort_by_kind(ds);
    lemma_sort_sorted(ds);
    lemma_resolve_sorted(sorted, sorted.len() as int);
}

} // verus!
