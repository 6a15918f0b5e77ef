//! From the borrow facts of a function to the ranges of its variables.

use crate::groups::{
    add_member, add_members, add_value, extend_members, fold_rel, fold_row, get_group, groups_view, insert_member, lookup, push_value,
};
use crate::models::{blocks_view, BasicBlockView, MirBasicBlock, Range};
use crate::mir_transform::{
    rich_locations_to_ranges, spec_rich_locations_to_ranges, BorrowData, BorrowMap, BorrowMapView,
    Location, RichLocation,
};
use crate::range_ops::{eliminated_ranges, spec_eliminated_ranges};
use rayon::iter::{IntoParallelRefIterator, ParallelIterator};
use vstd::prelude::*;

verus! {

/// The rich location of each point of a function, by the index of the
/// point.
#[derive(Debug)]
pub struct LocationTable {
    points: Vec<RichLocation>,
}

impl View for LocationTable {
    type V = Seq<RichLocation>;

    closed spec fn view(&self) -> Seq<RichLocation> {
        self.points@
    }
}

impl LocationTable {
    /// The table in which point `i` is `points[i]`.
    pub fn new(points: Vec<RichLocation>) -> (r: Self)
        ensures
            r@ == points@,
    {
        Self { points }
    }

    /// The rich location of a point; none for a point that the table does
    /// not have.
    pub fn to_rich_location(&self, point: u32) -> (r: Option<RichLocation>)
        ensures
            r == spec_location(self@, point),
    {
        if (point as usize) < self.points.len() {
            Some(self.points[point as usize])
        } else {
            None
        }
    }
}

/// The rich location of a point; none for a point that the table does not
/// have.
pub open spec fn spec_location(table: Seq<RichLocation>, point: u32) -> Option<RichLocation> {
    if point < table.len() {
        Some(table[point as int])
    } else {
        None
    }
}

/// The relations that the fixpoint solver gives for one function.  Points,
/// variables, origins and loans are indices.
#[derive(Debug)]
pub struct BorrowFacts {
    /// For a point, the variables that are live on entry to it.
    pub var_live_on_entry: Vec<(u32, Vec<u32>)>,
    /// For a point, the variables whose drop is live on entry to it.
    pub var_drop_live_on_entry: Vec<(u32, Vec<u32>)>,
    /// For a point, the origins that are live on entry to it.
    pub origin_live_on_entry: Vec<(u32, Vec<u32>)>,
    /// For a point, the loans that are live at it.
    pub loan_live_at: Vec<(u32, Vec<u32>)>,
    /// For an origin, origins that it must outlive; one row for each point
    /// at which the solver states it.
    pub subset: Vec<(u32, Vec<u32>)>,
    /// For an origin, loans that it contains; one row for each point at
    /// which the solver states it.
    pub origin_contains_loan_at: Vec<(u32, Vec<u32>)>,
}

/// The ranges that a set of locations stands for, flattened.
pub open spec fn spec_flat_ranges(blocks: Seq<BasicBlockView>, locations: Seq<RichLocation>) -> Seq<
    Range,
> {
    spec_eliminated_ranges(spec_rich_locations_to_ranges(blocks, locations))
}

/// For each group of locations, the flattened ranges that they stand for.
pub open spec fn spec_flat_groups(
    blocks: Seq<BasicBlockView>,
    gs: Seq<(u32, Seq<RichLocation>)>,
) -> Seq<(u32, Seq<Range>)> {
    gs.map_values(|g: (u32, Seq<RichLocation>)| (g.0, spec_flat_ranges(blocks, g.1)))
}

/// The flattened ranges of one group of locations.
pub fn flat_group(basic_blocks: &Vec<MirBasicBlock>, group: &(u32, Vec<RichLocation>)) -> (r: (
    u32,
    Vec<Range>,
))
    ensures
        r.0 == group.0,
        r.1@ == spec_flat_ranges(blocks_view(basic_blocks@), group.1@),
{
    (group.0, eliminated_ranges(rich_locations_to_ranges(basic_blocks, &group.1)))
}

/// Converts the groups in parallel.  Rayon's `par_iter`, `map` and
/// `collect` are taken to give what the sequential iterator gives: one
/// result for each group, in the order of the groups.
#[verifier::external_body]
fn par_flat_groups(basic_blocks: &Vec<MirBasicBlock>, groups: &Vec<(u32, Vec<RichLocation>)>) -> (r:
    Vec<(u32, Vec<Range>)>)
    ensures
        groups_view(r@) == spec_flat_groups(blocks_view(basic_blocks@), groups_view(groups@)),
{
    groups.par_iter().map(|group| flat_group(basic_blocks, group)).collect()
}

/// Takes a variable at a point in: the location of the point joins the
/// locations of the variable.  A point that the table does not have is
/// passed over.
pub open spec fn live_step(table: Seq<RichLocation>) -> spec_fn(
    Seq<(u32, Seq<RichLocation>)>,
    u32,
    u32,
) -> Seq<(u32, Seq<RichLocation>)> {
    |gs: Seq<(u32, Seq<RichLocation>)>, point: u32, local: u32|
        match spec_location(table, point) {
            Some(location) => add_value(gs, local, location),
            None => gs,
        }
}

/// For each variable of a point-indexed relation, the flattened ranges of
/// the points at which the relation names it.  The variables stand in the
/// order in which the relation first names them.
pub open spec fn spec_get_range(
    rel: Seq<(u32, Seq<u32>)>,
    table: Seq<RichLocation>,
    blocks: Seq<BasicBlockView>,
) -> Seq<(u32, Seq<Range>)> {
    spec_flat_groups(blocks, fold_rel(live_step(table), Seq::empty(), rel, rel.len() as int))
}

/// The ranges of each variable that a point-indexed relation names.
pub fn get_range(
    live_on_entry: &Vec<(u32, Vec<u32>)>,
    location_table: &LocationTable,
    basic_blocks: &Vec<MirBasicBlock>,
) -> (r: Vec<(u32, Vec<Range>)>)
    ensures
        groups_view(r@) == spec_get_range(
            groups_view(live_on_entry@),
            location_table@,
            blocks_view(basic_blocks@),
        ),
{
    let mut local_locs: Vec<(u32, Vec<RichLocation>)> = Vec::new();
    assert(groups_view(local_locs@) =~= Seq::empty());
    let ghost rel = groups_view(live_on_entry@);
    let mut i: usize = 0;
    while i < live_on_entry.len()
        invariant
            i <= live_on_entry@.len(),
            rel == groups_view(live_on_entry@),
            groups_view(local_locs@) == fold_rel(
                live_step(location_table@),
                Seq::empty(),
                rel,
                i as int,
            ),
        decreases live_on_entry.len() - i,
    {
        let point = live_on_entry[i].0;
        let locals = &live_on_entry[i].1;
        let location = location_table.to_rich_location(point);
        let ghost start = groups_view(local_locs@);
        let mut j: usize = 0;
        while j < locals.len()
            invariant
                j <= locals@.len(),
                location == spec_location(location_table@, point),
                groups_view(local_locs@) == fold_row(
                    live_step(location_table@),
                    start,
                    point,
                    locals@,
                    j as int,
                ),
            decreases locals.len() - j,
        {
            if let Some(location) = location {
                push_value(&mut local_locs, locals[j], location);
            }
            j += 1;
        }
        i += 1;
    }
    par_flat_groups(basic_blocks, &local_locs)
}

/// The ranges in which each variable is live.
#[must_use]
pub fn get_accurate_live(
    facts: &BorrowFacts,
    location_table: &LocationTable,
    basic_blocks: &Vec<MirBasicBlock>,
) -> (r: Vec<(u32, Vec<Range>)>)
    ensures
        groups_view(r@) == spec_get_range(
            groups_view(facts.var_live_on_entry@),
            location_table@,
            blocks_view(basic_blocks@),
        ),
{
    get_range(&facts.var_live_on_entry, location_table, basic_blocks)
}

/// The ranges in which the drop of each variable is live.
#[must_use]
pub fn drop_range(
    facts: &BorrowFacts,
    location_table: &LocationTable,
    basic_blocks: &Vec<MirBasicBlock>,
) -> (r: Vec<(u32, Vec<Range>)>)
    ensures
        groups_view(r@) == spec_get_range(
            groups_view(facts.var_drop_live_on_entry@),
            location_table@,
            blocks_view(basic_blocks@),
        ),
{
    get_range(&facts.var_drop_live_on_entry, location_table, basic_blocks)
}

/// Takes a loan at a point in, for the borrows of one kind: the location
/// of the point joins the locations of the variable that the loan borrows.
/// A point that the table does not have, a loan that the borrow map does
/// not have, and a loan of the other kind are passed over.
pub open spec fn borrow_step(
    table: Seq<RichLocation>,
    borrows: Seq<(Location, BorrowData)>,
    mutable: bool,
) -> spec_fn(Seq<(u32, Seq<RichLocation>)>, u32, u32) -> Seq<(u32, Seq<RichLocation>)> {
    |gs: Seq<(u32, Seq<RichLocation>)>, point: u32, loan: u32|
        match spec_location(table, point) {
            Some(location) => if loan < borrows.len() && (borrows[loan as int].1 is Mutable)
                == mutable {
                add_value(gs, borrows[loan as int].1.spec_borrowed(), location)
            } else {
                gs
            },
            None => gs,
        }
}

/// For each borrowed variable, the flattened ranges of the points at which
/// a loan of the given kind on it is live.
pub open spec fn spec_borrow_live(
    loan_live_at: Seq<(u32, Seq<u32>)>,
    table: Seq<RichLocation>,
    borrows: Seq<(Location, BorrowData)>,
    mutable: bool,
    blocks: Seq<BasicBlockView>,
) -> Seq<(u32, Seq<Range>)> {
    spec_flat_groups(
        blocks,
        fold_rel(
            borrow_step(table, borrows, mutable),
            Seq::empty(),
            loan_live_at,
            loan_live_at.len() as int,
        ),
    )
}

/// The ranges in which each variable is borrowed: first those of the
/// shared borrows, then those of the mutable borrows.
pub fn get_borrow_live(
    facts: &BorrowFacts,
    location_table: &LocationTable,
    borrow_map: &BorrowMap,
    basic_blocks: &Vec<MirBasicBlock>,
) -> (r: (Vec<(u32, Vec<Range>)>, Vec<(u32, Vec<Range>)>))
    ensures
        groups_view(r.0@) == spec_borrow_live(
            groups_view(facts.loan_live_at@),
            location_table@,
            borrow_map@.borrows,
            false,
            blocks_view(basic_blocks@),
        ),
        groups_view(r.1@) == spec_borrow_live(
            groups_view(facts.loan_live_at@),
            location_table@,
            borrow_map@.borrows,
            true,
            blocks_view(basic_blocks@),
        ),
{
    let mut shared_borrows: Vec<(u32, Vec<RichLocation>)> = Vec::new();
    let mut mutable_borrows: Vec<(u32, Vec<RichLocation>)> = Vec::new();
    assert(groups_view(shared_borrows@) =~= Seq::empty());
    assert(groups_view(mutable_borrows@) =~= Seq::empty());
    let ghost rel = groups_view(facts.loan_live_at@);
    let ghost table = location_table@;
    let ghost borrows = borrow_map@.borrows;
    let mut i: usize = 0;
    while i < facts.loan_live_at.len()
        invariant
            i <= facts.loan_live_at@.len(),
            rel == groups_view(facts.loan_live_at@),
            table == location_table@,
            borrows == borrow_map@.borrows,
            groups_view(shared_borrows@) == fold_rel(
                borrow_step(table, borrows, false),
                Seq::empty(),
                rel,
                i as int,
            ),
            groups_view(mutable_borrows@) == fold_rel(
                borrow_step(table, borrows, true),
                Seq::empty(),
                rel,
                i as int,
            ),
        decreases facts.loan_live_at.len() - i,
    {
        let point = facts.loan_live_at[i].0;
        let loans = &facts.loan_live_at[i].1;
        let location = location_table.to_rich_location(point);
        let ghost shared_start = groups_view(shared_borrows@);
        let ghost mutable_start = groups_view(mutable_borrows@);
        let mut j: usize = 0;
        while j < loans.len()
            invariant
                j <= loans@.len(),
                table == location_table@,
                borrows == borrow_map@.borrows,
                location == spec_location(table, point),
                groups_view(shared_borrows@) == fold_row(
                    borrow_step(table, borrows, false),
                    shared_start,
                    point,
                    loans@,
                    j as int,
                ),
                groups_view(mutable_borrows@) == fold_row(
                    borrow_step(table, borrows, true),
                    mutable_start,
                    point,
                    loans@,
                    j as int,
                ),
            decreases loans.len() - j,
        {
            if let Some(location) = location {
                match borrow_map.get_from_borrow_index(loans[j] as usize) {
                    Some((_, BorrowData::Shared { borrowed, .. })) => {
                        push_value(&mut shared_borrows, *borrowed, location);
                    },
                    Some((_, BorrowData::Mutable { borrowed, .. })) => {
                        push_value(&mut mutable_borrows, *borrowed, location);
                    },
                    None => {},
                }
            }
            j += 1;
        }
        i += 1;
    }
    (
        par_flat_groups(basic_blocks, &shared_borrows),
        par_flat_groups(basic_blocks, &mutable_borrows),
    )
}

/// Takes a pair of a relation in by adding the value to the group of the
/// key.
pub open spec fn member_step() -> spec_fn(Seq<(u32, Seq<u32>)>, u32, u32) -> Seq<(u32, Seq<u32>)> {
    |gs: Seq<(u32, Seq<u32>)>, key: u32, value: u32| add_member(gs, key, value)
}

/// Takes a pair of a relation in by adding the key to the group of the
/// value.
pub open spec fn inverse_step() -> spec_fn(Seq<(u32, Seq<u32>)>, u32, u32) -> Seq<(u32, Seq<u32>)> {
    |gs: Seq<(u32, Seq<u32>)>, key: u32, value: u32| add_member(gs, value, key)
}

/// Takes a subset in: the points at which the subset origin is live join
/// the points of the superset origin.
pub open spec fn outlives_step(region_points: Seq<(u32, Seq<u32>)>) -> spec_fn(
    Seq<(u32, Seq<u32>)>,
    u32,
    u32,
) -> Seq<(u32, Seq<u32>)> {
    |gs: Seq<(u32, Seq<u32>)>, sup: u32, sub: u32|
        match lookup(region_points, sub) {
            Some(points) => add_members(gs, sup, points, points.len() as int),
            None => gs,
        }
}

/// The last variable among the first `n` of the map to which the loan is
/// assigned.
pub open spec fn last_assigned(local_map: Seq<(u32, Seq<u32>)>, loan: u32, n: int) -> Option<u32>
    decreases n,
{
    if n <= 0 || n > local_map.len() {
        None
    } else if local_map[n - 1].1.contains(loan) {
        Some(local_map[n - 1].0)
    } else {
        last_assigned(local_map, loan, n - 1)
    }
}

/// Takes a loan that an origin contains in: the points at which the origin
/// must be live join the points of the variable that holds the reference
/// and of the variable that is borrowed.
pub open spec fn loan_step(region_must: Seq<(u32, Seq<u32>)>, map: BorrowMapView) -> spec_fn(
    Seq<(u32, Seq<u32>)>,
    u32,
    u32,
) -> Seq<(u32, Seq<u32>)> {
    |gs: Seq<(u32, Seq<u32>)>, region: u32, loan: u32|
        match lookup(region_must, region) {
            None => gs,
            Some(points) => {
                let with_holder = match last_assigned(
                    map.local_map,
                    loan,
                    map.local_map.len() as int,
                ) {
                    Some(holder) => add_members(gs, holder, points, points.len() as int),
                    None => gs,
                };
                if loan < map.borrows.len() {
                    add_members(
                        with_holder,
                        map.borrows[loan as int].1.spec_borrowed(),
                        points,
                        points.len() as int,
                    )
                } else {
                    with_holder
                }
            },
        }
}

/// The locations of the first `n` points, in order, without the points
/// that the table does not have.
pub open spec fn locations_of(table: Seq<RichLocation>, points: Seq<u32>, n: int) -> Seq<RichLocation>
    decreases n,
{
    if n <= 0 || n > points.len() {
        Seq::empty()
    } else {
        match spec_location(table, points[n - 1]) {
            Some(location) => locations_of(table, points, n - 1).push(location),
            None => locations_of(table, points, n - 1),
        }
    }
}

/// For each origin, the points at which it is live.
pub open spec fn spec_region_points(origin_live_on_entry: Seq<(u32, Seq<u32>)>) -> Seq<
    (u32, Seq<u32>),
> {
    fold_rel(inverse_step(), Seq::empty(), origin_live_on_entry, origin_live_on_entry.len() as int)
}

/// For each origin, the origins that it must outlive.
pub open spec fn spec_subsets(subset: Seq<(u32, Seq<u32>)>) -> Seq<(u32, Seq<u32>)> {
    fold_rel(member_step(), Seq::empty(), subset, subset.len() as int)
}

/// For each origin that must outlive another, the points at which the
/// origins that it must outlive are live.
pub open spec fn spec_region_must(
    origin_live_on_entry: Seq<(u32, Seq<u32>)>,
    subset: Seq<(u32, Seq<u32>)>,
) -> Seq<(u32, Seq<u32>)> {
    let subsets = spec_subsets(subset);
    fold_rel(
        outlives_step(spec_region_points(origin_live_on_entry)),
        Seq::empty(),
        subsets,
        subsets.len() as int,
    )
}

/// For each variable, the points at which it must live: for each loan
/// that an origin contains, the points at which that origin must be live
/// count for the variable that holds the reference and for the variable
/// that is borrowed.
pub open spec fn spec_local_must(
    origin_live_on_entry: Seq<(u32, Seq<u32>)>,
    subset: Seq<(u32, Seq<u32>)>,
    origin_contains_loan_at: Seq<(u32, Seq<u32>)>,
    map: BorrowMapView,
) -> Seq<(u32, Seq<u32>)> {
    fold_rel(
        loan_step(spec_region_must(origin_live_on_entry, subset), map),
        Seq::empty(),
        origin_contains_loan_at,
        origin_contains_loan_at.len() as int,
    )
}

/// For each variable that must live somewhere, the flattened ranges of the
/// points at which it must live.
pub open spec fn spec_must_live(
    origin_live_on_entry: Seq<(u32, Seq<u32>)>,
    subset: Seq<(u32, Seq<u32>)>,
    origin_contains_loan_at: Seq<(u32, Seq<u32>)>,
    table: Seq<RichLocation>,
    map: BorrowMapView,
    blocks: Seq<BasicBlockView>,
) -> Seq<(u32, Seq<Range>)> {
    spec_flat_groups(
        blocks,
        spec_local_must(origin_live_on_entry, subset, origin_contains_loan_at, map).map_values(
            |g: (u32, Seq<u32>)| (g.0, locations_of(table, g.1, g.1.len() as int)),
        ),
    )
}

fn collect_members(rel: &Vec<(u32, Vec<u32>)>, inverse: bool) -> (r: Vec<(u32, Vec<u32>)>)
    ensures
        groups_view(r@) == fold_rel(
            if inverse {
                inverse_step()
            } else {
                member_step()
            },
            Seq::empty(),
            groups_view(rel@),
            rel@.len() as int,
        ),
{
    let ghost f = if inverse {
        inverse_step()
    } else {
        member_step()
    };
    let mut out: Vec<(u32, Vec<u32>)> = Vec::new();
    assert(groups_view(out@) =~= Seq::empty());
    let mut i: usize = 0;
    while i < rel.len()
        invariant
            i <= rel@.len(),
            f == if inverse {
                inverse_step()
            } else {
                member_step()
            },
            groups_view(out@) == fold_rel(f, Seq::empty(), groups_view(rel@), i as int),
        decreases rel.len() - i,
    {
        let key = rel[i].0;
        let values = &rel[i].1;
        let ghost start = groups_view(out@);
        let mut j: usize = 0;
        while j < values.len()
            invariant
                j <= values@.len(),
                f == if inverse {
                    inverse_step()
                } else {
                    member_step()
                },
                groups_view(out@) == fold_row(f, start, key, values@, j as int),
            decreases values.len() - j,
        {
            if inverse {
                insert_member(&mut out, values[j], key);
            } else {
                insert_member(&mut out, key, values[j]);
            }
            j += 1;
        }
        i += 1;
    }
    out
}

fn find_assigned(local_map: &Vec<(u32, Vec<u32>)>, loan: u32) -> (r: Option<u32>)
    ensures
        r == last_assigned(groups_view(local_map@), loan, local_map@.len() as int),
{
    let mut n: usize = local_map.len();
    while n > 0
        invariant
            n <= local_map@.len(),
            last_assigned(groups_view(local_map@), loan, local_map@.len() as int) == last_assigned(
                groups_view(local_map@),
                loan,
                n as int,
            ),
        decreases n,
    {
        if crate::groups::holds(&local_map[n - 1].1, loan) {
            return Some(local_map[n - 1].0);
        }
        n -= 1;
    }
    None
}

fn point_locations(location_table: &LocationTable, points: &Vec<u32>) -> (r: Vec<RichLocation>)
    ensures
        r@ == locations_of(location_table@, points@, points@.len() as int),
{
    let mut out: Vec<RichLocation> = Vec::new();
    let mut i: usize = 0;
    while i < points.len()
        invariant
            i <= points@.len(),
            out@ == locations_of(location_table@, points@, i as int),
        decreases points.len() - i,
    {
        if let Some(location) = location_table.to_rich_location(points[i]) {
            out.push(location);
        }
        i += 1;
    }
    out
}

/// The ranges in which each variable must live, so that the references
/// that depend on it stay valid.
pub fn get_must_live(
    facts: &BorrowFacts,
    location_table: &LocationTable,
    borrow_map: &BorrowMap,
    basic_blocks: &Vec<MirBasicBlock>,
) -> (r: Vec<(u32, Vec<Range>)>)
    ensures
        groups_view(r@) == spec_must_live(
            groups_view(facts.origin_live_on_entry@),
            groups_view(facts.subset@),
            groups_view(facts.origin_contains_loan_at@),
            location_table@,
            borrow_map@,
            blocks_view(basic_blocks@),
        ),
{
    // the points at which each origin is live
    let region_locations = collect_members(&facts.origin_live_on_entry, true);
    // the origins that each origin must outlive
    let subsets = collect_members(&facts.subset, false);
    // the points that each origin must contain
    let mut region_must_locations: Vec<(u32, Vec<u32>)> = Vec::new();
    assert(groups_view(region_must_locations@) =~= Seq::empty());
    let ghost region_points = groups_view(region_locations@);
    let mut i: usize = 0;
    while i < subsets.len()
        invariant
            i <= subsets@.len(),
            region_points == groups_view(region_locations@),
            groups_view(region_must_locations@) == fold_rel(
                outlives_step(region_points),
                Seq::empty(),
                groups_view(subsets@),
                i as int,
            ),
        decreases subsets.len() - i,
    {
        let sup = subsets[i].0;
        let subs = &subsets[i].1;
        let ghost start = groups_view(region_must_locations@);
        let mut j: usize = 0;
        while j < subs.len()
            invariant
                j <= subs@.len(),
                region_points == groups_view(region_locations@),
                groups_view(region_must_locations@) == fold_row(
                    outlives_step(region_points),
                    start,
                    sup,
                    subs@,
                    j as int,
                ),
            decreases subs.len() - j,
        {
            if let Some(locs) = get_group(&region_locations, subs[j]) {
                extend_members(&mut region_must_locations, sup, locs);
            }
            j += 1;
        }
        i += 1;
    }
    // the points at which each variable must live: both the variable that
    // holds the reference and the variable that is borrowed
    let mut local_must_locations: Vec<(u32, Vec<u32>)> = Vec::new();
    assert(groups_view(local_must_locations@) =~= Seq::empty());
    let ghost region_must = groups_view(region_must_locations@);
    let ghost map = borrow_map@;
    let mut i: usize = 0;
    while i < facts.origin_contains_loan_at.len()
        invariant
            i <= facts.origin_contains_loan_at@.len(),
            region_must == groups_view(region_must_locations@),
            map == borrow_map@,
            groups_view(local_must_locations@) == fold_rel(
                loan_step(region_must, map),
                Seq::empty(),
                groups_view(facts.origin_contains_loan_at@),
                i as int,
            ),
        decreases facts.origin_contains_loan_at.len() - i,
    {
        let region = facts.origin_contains_loan_at[i].0;
        let loans = &facts.origin_contains_loan_at[i].1;
        let ghost start = groups_view(local_must_locations@);
        let mut j: usize = 0;
        while j < loans.len()
            invariant
                j <= loans@.len(),
                region_must == groups_view(region_must_locations@),
                map == borrow_map@,
                groups_view(local_must_locations@) == fold_row(
                    loan_step(region_must, map),
                    start,
                    region,
                    loans@,
                    j as int,
                ),
            decreases loans.len() - j,
        {
            let loan = loans[j];
            if let Some(locs) = get_group(&region_must_locations, region) {
                if let Some(assigned_local) = find_assigned(borrow_map.local_map(), loan) {
                    extend_members(&mut local_must_locations, assigned_local, locs);
                }
                if let Some(borrow) = borrow_map.get_from_borrow_index(loan as usize) {
                    extend_members(&mut local_must_locations, borrow.1.borrowed(), locs);
                }
            }
            j += 1;
        }
        i += 1;
    }
    let mut local_locations: Vec<(u32, Vec<RichLocation>)> = Vec::new();
    let mut k: usize = 0;
    while k < local_must_locations.len()
        invariant
            k <= local_must_locations@.len(),
            local_locations@.len() == k,
            forall|m: int|
                0 <= m < k ==> (#[trigger] local_locations@[m]).0 == local_must_locations@[m].0
                    && local_locations@[m].1@ == locations_of(
                    location_table@,
                    local_must_locations@[m].1@,
                    local_must_locations@[m].1@.len() as int,
                ),
        decreases local_must_locations.len() - k,
    {
        let locations = point_locations(location_table, &local_must_locations[k].1);
        local_locations.push((local_must_locations[k].0, locations));
        k += 1;
    }
    assert(groups_view(local_locations@) =~= groups_view(local_must_locations@).map_values(
        |g: (u32, Seq<u32>)| (g.0, locations_of(location_table@, g.1, g.1.len() as int)),
    ));
    par_flat_groups(basic_blocks, &local_locations)
}

} // verus!
