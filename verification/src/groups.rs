//! Values grouped under integer keys, in the order in which the keys and
//! the values came.

use vstd::prelude::*;

verus! {

/// The groups of a list, as plain values.
pub open spec fn groups_view<V>(gs: Seq<(u32, Vec<V>)>) -> Seq<(u32, Seq<V>)> {
    gs.map_values(|g: (u32, Vec<V>)| (g.0, g.1@))
}

/// The index of the first group at `j` or later with the key `key`.
pub open spec fn find_key<V>(gs: Seq<(u32, Seq<V>)>, key: u32, j: int) -> Option<int>
    decreases gs.len() - j,
{
    if j < 0 || j >= gs.len() {
        None
    } else if gs[j].0 == key {
        Some(j)
    } else {
        find_key(gs, key, j + 1)
    }
}

/// The values of the group with the key `key`; none if there is no such
/// group.
pub open spec fn lookup<V>(gs: Seq<(u32, Seq<V>)>, key: u32) -> Option<Seq<V>> {
    match find_key(gs, key, 0) {
        Some(i) => Some(gs[i].1),
        None => None,
    }
}

/// The groups with `v` at the end of the group of `key`, which is made at
/// the end of the list if it is missing.
pub open spec fn add_value<V>(gs: Seq<(u32, Seq<V>)>, key: u32, v: V) -> Seq<(u32, Seq<V>)> {
    match find_key(gs, key, 0) {
        Some(i) => gs.update(i, (key, gs[i].1.push(v))),
        None => gs.push((key, seq![v])),
    }
}

/// As [`add_value`], but a value that the group holds is not added again.
pub open spec fn add_member<V>(gs: Seq<(u32, Seq<V>)>, key: u32, v: V) -> Seq<(u32, Seq<V>)> {
    match find_key(gs, key, 0) {
        Some(i) => if gs[i].1.contains(v) {
            gs
        } else {
            gs.update(i, (key, gs[i].1.push(v)))
        },
        None => gs.push((key, seq![v])),
    }
}

/// The groups with the first `n` values of `vs` added to the group of
/// `key` as members, in order.
pub open spec fn add_members<V>(gs: Seq<(u32, Seq<V>)>, key: u32, vs: Seq<V>, n: int) -> Seq<
    (u32, Seq<V>),
>
    decreases n,
{
    if n <= 0 || n > vs.len() {
        gs
    } else {
        add_member(add_members(gs, key, vs, n - 1), key, vs[n - 1])
    }
}

/// What `find_key` finds has the key, and nothing before it has.
pub proof fn lemma_find_key<V>(gs: Seq<(u32, Seq<V>)>, key: u32, j: int)
    requires
        0 <= j,
    ensures
        match find_key(gs, key, j) {
            Some(k) => j <= k < gs.len() && gs[k].0 == key,
            None => forall|m: int| j <= m < gs.len() ==> (#[trigger] gs[m]).0 != key,
        },
    decreases gs.len() - j,
{
    if j < gs.len() && gs[j].0 != key {
        lemma_find_key(gs, key, j + 1);
    }
}

/// The index of the group with the key `key`.
pub fn position<V>(gs: &Vec<(u32, Vec<V>)>, key: u32) -> (r: Option<usize>)
    ensures
        match r {
            Some(i) => find_key(groups_view(gs@), key, 0) == Some(i as int) && i < gs@.len(),
            None => find_key(groups_view(gs@), key, 0) is None,
        },
{
    let mut i: usize = 0;
    while i < gs.len()
        invariant
            i <= gs@.len(),
            find_key(groups_view(gs@), key, 0) == find_key(groups_view(gs@), key, i as int),
        decreases gs.len() - i,
    {
        if gs[i].0 == key {
            return Some(i);
        }
        i += 1;
    }
    None
}

/// The values of the group with the key `key`.
pub fn get_group<V>(gs: &Vec<(u32, Vec<V>)>, key: u32) -> (r: Option<&Vec<V>>)
    ensures
        match r {
            Some(vs) => lookup(groups_view(gs@), key) == Some(vs@),
            None => lookup(groups_view(gs@), key) is None,
        },
{
    match position(gs, key) {
        Some(i) => Some(&gs[i].1),
        None => None,
    }
}

/// Puts `v` at the end of the group of `key`.
pub fn push_value<V>(gs: &mut Vec<(u32, Vec<V>)>, key: u32, v: V)
    ensures
        groups_view(final(gs)@) == add_value(groups_view(old(gs)@), key, v),
{
    let ghost before = groups_view(gs@);
    match position(gs, key) {
        Some(i) => {
            proof {
                lemma_find_key(before, key, 0);
            }
            gs[i].1.push(v);
            assert(groups_view(gs@) =~= before.update(i as int, (key, before[i as int].1.push(v))));
        },
        None => {
            let mut values: Vec<V> = Vec::new();
            values.push(v);
            gs.push((key, values));
            assert(values@ =~= seq![v]);
            assert(groups_view(gs@) =~= before.push((key, seq![v])));
        },
    }
}

/// Whether `vs` holds `v`.
pub fn holds(vs: &Vec<u32>, v: u32) -> (r: bool)
    ensures
        r == vs@.contains(v),
{
    let mut i: usize = 0;
    while i < vs.len()
        invariant
            i <= vs@.len(),
            forall|k: int| 0 <= k < i ==> vs@[k] != v,
        decreases vs.len() - i,
    {
        if vs[i] == v {
            return true;
        }
        i += 1;
    }
    false
}

/// Puts `v` into the group of `key` unless the group holds it.
pub fn insert_member(gs: &mut Vec<(u32, Vec<u32>)>, key: u32, v: u32)
    ensures
        groups_view(final(gs)@) == add_member(groups_view(old(gs)@), key, v),
{
    let ghost before = groups_view(gs@);
    match position(gs, key) {
        Some(i) => {
            proof {
                lemma_find_key(before, key, 0);
            }
            if !holds(&gs[i].1, v) {
                gs[i].1.push(v);
                assert(groups_view(gs@) =~= before.update(
                    i as int,
                    (key, before[i as int].1.push(v)),
                ));
            }
        },
        None => {
            let mut values: Vec<u32> = Vec::new();
            values.push(v);
            gs.push((key, values));
            assert(values@ =~= seq![v]);
            assert(groups_view(gs@) =~= before.push((key, seq![v])));
        },
    }
}

/// Puts each value of `vs` into the group of `key` unless the group holds
/// it.
pub fn extend_members(gs: &mut Vec<(u32, Vec<u32>)>, key: u32, vs: &Vec<u32>)
    ensures
        groups_view(final(gs)@) == add_members(
            groups_view(old(gs)@),
            key,
            vs@,
            vs@.len() as int,
        ),
{
    let mut i: usize = 0;
    while i < vs.len()
        invariant
            i <= vs@.len(),
            groups_view(gs@) == add_members(groups_view(old(gs)@), key, vs@, i as int),
        decreases vs.len() - i,
    {
        insert_member(gs, key, vs[i]);
        i += 1;
    }
}

/// The state after the first `m` values of a row were taken in, in order.
pub open spec fn fold_row<A>(f: spec_fn(A, u32, u32) -> A, acc: A, key: u32, vs: Seq<u32>, m: int) -> A
    decreases m,
{
    if m <= 0 || m > vs.len() {
        acc
    } else {
        f(fold_row(f, acc, key, vs, m - 1), key, vs[m - 1])
    }
}

/// The state after the first `n` rows of a relation were taken in: each
/// row in order, and in each row its values in order, each with the key of
/// the row.
pub open spec fn fold_rel<A>(f: spec_fn(A, u32, u32) -> A, acc: A, rel: Seq<(u32, Seq<u32>)>, n: int) -> A
    decreases n,
{
    if n <= 0 || n > rel.len() {
        acc
    } else {
        fold_row(
            f,
            fold_rel(f, acc, rel, n - 1),
            rel[n - 1].0,
            rel[n - 1].1,
            rel[n - 1].1.len() as int,
        )
    }
}

} // verus!
