//! Laying decorations out by kind and making their overlaps explicit.

use crate::decoration::{decos_view, Deco, DecoKind, DecoView};
use crate::models::Range;
use crate::range_ops::{common_range, exclude_ranges, spec_common_range, spec_exclude_ranges};
use vstd::prelude::*;

verus! {

/// The decorations of kind `k` among the first `n`, in order.
pub open spec fn kind_prefix(ds: Seq<DecoView<Range>>, k: DecoKind, n: int) -> Seq<DecoView<Range>>
    decreases n,
{
    if n <= 0 || n > ds.len() {
        Seq::empty()
    } else if ds[n - 1].kind == k {
        kind_prefix(ds, k, n - 1).push(ds[n - 1])
    } else {
        kind_prefix(ds, k, n - 1)
    }
}

/// The decorations of kind `k`, in order.
pub open spec fn of_kind(ds: Seq<DecoView<Range>>, k: DecoKind) -> Seq<DecoView<Range>> {
    kind_prefix(ds, k, ds.len() as int)
}

/// The decorations ordered by kind: `Lifetime`, `ImmBorrow`, `MutBorrow`,
/// `Move`, `Call`, `SharedMut`, `Outlive`; those of one kind stay in the
/// order in which they came.
pub open spec fn spec_sort_by_kind(ds: Seq<DecoView<Range>>) -> Seq<DecoView<Range>> {
    of_kind(ds, DecoKind::Lifetime) + of_kind(ds, DecoKind::ImmBorrow) + of_kind(
        ds,
        DecoKind::MutBorrow,
    ) + of_kind(ds, DecoKind::Move) + of_kind(ds, DecoKind::Call) + of_kind(
        ds,
        DecoKind::SharedMut,
    ) + of_kind(ds, DecoKind::Outlive)
}

/// The decoration `d` on the range `r`.
pub open spec fn on_range(d: DecoView<Range>, r: Range, overlapped: bool) -> DecoView<Range> {
    DecoView { range: r, overlapped, ..d }
}

/// The remainders of `d` on the ranges `rs`, none clipped.
pub open spec fn remainders(d: DecoView<Range>, rs: Seq<Range>) -> Seq<DecoView<Range>> {
    rs.map_values(|r: Range| on_range(d, r, false))
}

/// What becomes of an earlier decoration when a later one comes on the
/// range `cur`.  Nothing, if it was clipped before or shares no offset with
/// `cur`.  Otherwise it is clipped to the shared part and marked, and what
/// is left of it on either side comes as new decorations.
pub open spec fn spec_process_overlap(prev: DecoView<Range>, cur: Range) -> Option<
    (DecoView<Range>, Seq<DecoView<Range>>),
> {
    if prev.overlapped {
        None
    } else {
        match spec_common_range(cur, prev.range) {
            None => None,
            Some(common) => Some(
                (
                    on_range(prev, common, true),
                    remainders(prev, spec_exclude_ranges(seq![prev.range], seq![common])),
                ),
            ),
        }
    }
}

/// The decorations that stand in the place of `prev` once a decoration on
/// `cur` has come: itself, or its clipped part followed by its remainders.
pub open spec fn split(prev: DecoView<Range>, cur: Range) -> Seq<DecoView<Range>> {
    match spec_process_overlap(prev, cur) {
        None => seq![prev],
        Some((clipped, rest)) => seq![clipped] + rest,
    }
}

/// The first `n` decorations of `res`, each split by `cur`.
pub open spec fn split_all(res: Seq<DecoView<Range>>, cur: Range, n: int) -> Seq<DecoView<Range>>
    decreases n,
{
    if n <= 0 || n > res.len() {
        Seq::empty()
    } else {
        split_all(res, cur, n - 1) + split(res[n - 1], cur)
    }
}

/// The layout with `cur` placed: unchanged if it holds an equal decoration;
/// else every decoration split by the range of `cur`, and `cur` at the end.
pub open spec fn place(res: Seq<DecoView<Range>>, cur: DecoView<Range>) -> Seq<DecoView<Range>> {
    if res.contains(cur) {
        res
    } else {
        split_all(res, cur.range, res.len() as int).push(cur)
    }
}

/// The layout of the first `n` decorations, placed one after the other.
pub open spec fn resolve_upto(ds: Seq<DecoView<Range>>, n: int) -> Seq<DecoView<Range>>
    decreases n,
{
    if n <= 0 || n > ds.len() {
        Seq::empty()
    } else {
        place(resolve_upto(ds, n - 1), ds[n - 1])
    }
}

/// The decorations ordered by kind and placed one after the other.
pub open spec fn spec_handle_overlapping(ds: Seq<DecoView<Range>>) -> Seq<DecoView<Range>> {
    let sorted = spec_sort_by_kind(ds);
    resolve_upto(sorted, sorted.len() as int)
}

fn append_of_kind(out: &mut Vec<Deco>, decos: &Vec<Deco>, kind: DecoKind)
    ensures
        decos_view(final(out)@) == decos_view(old(out)@) + of_kind(decos_view(decos@), kind),
{
    let mut i: usize = 0;
    while i < decos.len()
        invariant
            i <= decos@.len(),
            decos_view(out@) == decos_view(old(out)@) + kind_prefix(
                decos_view(decos@),
                kind,
                i as int,
            ),
        decreases decos.len() - i,
    {
        if decos[i].kind().order() == kind.order() {
            let ghost before = decos_view(out@);
            let copy = decos[i].clone();
            out.push(copy);
            assert(decos_view(out@) =~= before.push(copy@));
        }
        i += 1;
    }
}

/// Orders the decorations by kind, keeping those of one kind in order.
pub fn sort_by_kind(decos: &Vec<Deco>) -> (r: Vec<Deco>)
    ensures
        decos_view(r@) == spec_sort_by_kind(decos_view(decos@)),
{
    let mut out: Vec<Deco> = Vec::new();
    assert(decos_view(out@) =~= Seq::empty());
    append_of_kind(&mut out, decos, DecoKind::Lifetime);
    append_of_kind(&mut out, decos, DecoKind::ImmBorrow);
    append_of_kind(&mut out, decos, DecoKind::MutBorrow);
    append_of_kind(&mut out, decos, DecoKind::Move);
    append_of_kind(&mut out, decos, DecoKind::Call);
    append_of_kind(&mut out, decos, DecoKind::SharedMut);
    append_of_kind(&mut out, decos, DecoKind::Outlive);
    assert(decos_view(out@) =~= spec_sort_by_kind(decos_view(decos@)));
    out
}

/// Splits an earlier decoration by the range of a later one; see
/// [`spec_process_overlap`].
pub fn process_overlap(prev: &Deco, current_range: Range) -> (r: Option<(Deco, Vec<Deco>)>)
    ensures
        match r {
            None => spec_process_overlap(prev@, current_range) is None,
            Some((clipped, rest)) => spec_process_overlap(prev@, current_range) == Some(
                (clipped@, decos_view(rest@)),
            ),
        },
{
    let (prev_range, prev_overlapped) = prev.range_and_overlapped();
    if prev_overlapped {
        return None;
    }
    match common_range(current_range, prev_range) {
        None => None,
        Some(common) => {
            let mut whole: Vec<Range> = Vec::new();
            whole.push(prev_range);
            let mut cut: Vec<Range> = Vec::new();
            cut.push(common);
            assert(whole@ =~= seq![prev_range]);
            assert(cut@ =~= seq![common]);
            let non_overlapping = exclude_ranges(whole, &cut);
            let mut new_decos: Vec<Deco> = Vec::new();
            let mut i: usize = 0;
            while i < non_overlapping.len()
                invariant
                    i <= non_overlapping@.len(),
                    decos_view(new_decos@) == remainders(prev@, non_overlapping@.take(i as int)),
                decreases non_overlapping.len() - i,
            {
                let ghost before = decos_view(new_decos@);
                let piece = prev.with_range(non_overlapping[i], false);
                new_decos.push(piece);
                assert(decos_view(new_decos@) =~= before.push(piece@));
                assert(remainders(prev@, non_overlapping@.take(i + 1)) =~= remainders(
                    prev@,
                    non_overlapping@.take(i as int),
                ).push(piece@));
                i += 1;
            }
            assert(non_overlapping@.take(non_overlapping@.len() as int) =~= non_overlapping@);
            let overlapped_deco = prev.with_range(common, true);
            Some((overlapped_deco, new_decos))
        },
    }
}

fn holds_equal(result: &Vec<Deco>, current: &Deco) -> (r: bool)
    ensures
        r == decos_view(result@).contains(current@),
{
    let mut i: usize = 0;
    while i < result.len()
        invariant
            i <= result@.len(),
            forall|k: int| 0 <= k < i ==> decos_view(result@)[k] != current@,
        decreases result.len() - i,
    {
        if result[i].same_as(current) {
            assert(decos_view(result@)[i as int] == current@);
            return true;
        }
        i += 1;
    }
    false
}

fn split_by(result: &Vec<Deco>, current_range: Range) -> (r: Vec<Deco>)
    ensures
        decos_view(r@) == split_all(decos_view(result@), current_range, result@.len() as int),
{
    let mut next: Vec<Deco> = Vec::new();
    assert(decos_view(next@) =~= Seq::empty());
    let mut j: usize = 0;
    while j < result.len()
        invariant
            j <= result@.len(),
            decos_view(next@) == split_all(decos_view(result@), current_range, j as int),
        decreases result.len() - j,
    {
        let ghost before = decos_view(next@);
        match process_overlap(&result[j], current_range) {
            None => {
                let copy = result[j].clone();
                next.push(copy);
                assert(decos_view(next@) =~= before + seq![copy@]);
            },
            Some((clipped, rest)) => {
                let mut rest = rest;
                let ghost pieces = decos_view(rest@);
                next.push(clipped);
                next.append(&mut rest);
                assert(decos_view(next@) =~= before + (seq![clipped@] + pieces));
            },
        }
        j += 1;
    }
    next
}

/// Places the decorations one after the other; see [`resolve_upto`].
pub fn resolve_overlaps(sorted: &Vec<Deco>) -> (r: Vec<Deco>)
    ensures
        decos_view(r@) == resolve_upto(decos_view(sorted@), sorted@.len() as int),
{
    let mut result: Vec<Deco> = Vec::new();
    assert(decos_view(result@) =~= Seq::empty());
    let mut i: usize = 0;
    while i < sorted.len()
        invariant
            i <= sorted@.len(),
            decos_view(result@) == resolve_upto(decos_view(sorted@), i as int),
        decreases sorted.len() - i,
    {
        let current = &sorted[i];
        if !holds_equal(&result, current) {
            let mut next = split_by(&result, current.range());
            let ghost before = decos_view(next@);
            let copy = current.clone();
            next.push(copy);
            assert(decos_view(next@) =~= before.push(copy@));
            result = next;
        }
        i += 1;
    }
    result
}

} // verus!
