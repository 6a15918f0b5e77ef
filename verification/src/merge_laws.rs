//! What holds of merging analysis results, function by function.

use crate::assoc::{as_map, has_key, keys_unique, lemma_as_map_push, lemma_as_map_update};
use crate::models::{
    first_with_id, ids_unique, law_merge_keeps_ids_unique, lemma_first_with_id, merge_items,
    upsert_fn, FunctionView,
};
use vstd::prelude::*;

verus! {

/// The functions of a list, each with its identifier.
pub open spec fn keyed(items: Seq<FunctionView>) -> Seq<(u32, FunctionView)> {
    items.map_values(|f: FunctionView| (f.fn_id, f))
}

/// The functions of a list by identifier.
pub open spec fn by_id(items: Seq<FunctionView>) -> Map<u32, FunctionView> {
    as_map(keyed(items))
}

/// The map with the first `n` functions of `new` put in, one after the
/// other, each under its identifier.
pub open spec fn last_wins(m: Map<u32, FunctionView>, new: Seq<FunctionView>, n: int) -> Map<
    u32,
    FunctionView,
>
    decreases n,
{
    if n <= 0 || n > new.len() {
        m
    } else {
        last_wins(m, new, n - 1).insert(new[n - 1].fn_id, new[n - 1])
    }
}

/// The index of the last function among the first `n` with the identifier
/// `id`.
pub open spec fn last_with_id(new: Seq<FunctionView>, id: u32, n: int) -> Option<int>
    decreases n,
{
    if n <= 0 || n > new.len() {
        None
    } else if new[n - 1].fn_id == id {
        Some(n - 1)
    } else {
        last_with_id(new, id, n - 1)
    }
}

/// A list without repeated identifiers has as many keys as functions.
proof fn lemma_keyed_unique(items: Seq<FunctionView>)
    requires
        ids_unique(items),
    ensures
        keys_unique(keyed(items)),
{
    let k = keyed(items);
    assert forall|i: int, j: int| 0 <= i < j < k.len() implies (#[trigger] k[i]).0 != (
    #[trigger] k[j]).0 by {
        assert(items[i].fn_id != items[j].fn_id);
    }
}

/// Putting a function into a list puts it into the map of the list under
/// its identifier.
pub proof fn lemma_upsert_by_id(items: Seq<FunctionView>, g: FunctionView)
    requires
        ids_unique(items),
    ensures
        by_id(upsert_fn(items, g)) == by_id(items).insert(g.fn_id, g),
{
    lemma_keyed_unique(items);
    lemma_first_with_id(items, g.fn_id, 0);
    let k = keyed(items);
    match first_with_id(items, g.fn_id, 0) {
        Some(i) => {
            lemma_as_map_update(k, i, g);
            assert(keyed(items.update(i, g)) =~= k.update(i, (k[i].0, g)));
        },
        None => {
            assert(!has_key(k, g.fn_id)) by {
                if has_key(k, g.fn_id) {
                    let i = crate::assoc::index_of_key(k, g.fn_id);
                    assert(items[i].fn_id == g.fn_id);
                }
            }
            lemma_as_map_push(k, g.fn_id, g);
            assert(keyed(items.push(g)) =~= k.push((g.fn_id, g)));
        },
    }
}

/// Merging functions into a list puts each into the map of the list under
/// its identifier, a later one in the place of an earlier one.
pub proof fn lemma_merge_by_id(items: Seq<FunctionView>, new: Seq<FunctionView>, n: int)
    requires
        ids_unique(items),
    ensures
        by_id(merge_items(items, new, n)) == last_wins(by_id(items), new, n),
    decreases n,
{
    if 0 < n <= new.len() {
        lemma_merge_by_id(items, new, n - 1);
        law_merge_keeps_ids_unique(items, new, n - 1);
        lemma_upsert_by_id(merge_items(items, new, n - 1), new[n - 1]);
    }
}

/// What the map holds after functions were put in: under an identifier
/// that came, the last function with it; under another, what it held.
pub proof fn lemma_last_wins(m: Map<u32, FunctionView>, new: Seq<FunctionView>, n: int, id: u32)
    requires
        0 <= n <= new.len(),
    ensures
        match last_with_id(new, id, n) {
            Some(i) => 0 <= i < n && new[i].fn_id == id && last_wins(m, new, n).dom().contains(id)
                && last_wins(m, new, n)[id] == new[i],
            None => last_wins(m, new, n).dom().contains(id) == m.dom().contains(id) && (
            m.dom().contains(id) ==> last_wins(m, new, n)[id] == m[id]),
        },
    decreases n,
{
    if n > 0 {
        lemma_last_wins(m, new, n - 1, id);
    }
}

/// Merging the same functions a second time changes nothing: under each
/// identifier the list holds what it held after the first time.
pub proof fn law_merge_idempotent(items: Seq<FunctionView>, new: Seq<FunctionView>)
    requires
        ids_unique(items),
    ensures
        by_id(
            merge_items(merge_items(items, new, new.len() as int), new, new.len() as int),
        ) == by_id(merge_items(items, new, new.len() as int)),
{
    let n = new.len() as int;
    let once = merge_items(items, new, n);
    law_merge_keeps_ids_unique(items, new, n);
    lemma_merge_by_id(items, new, n);
    lemma_merge_by_id(once, new, n);
    let a = by_id(once);
    let b = last_wins(a, new, n);
    assert forall|id: u32| #[trigger] a.dom().contains(id) == b.dom().contains(id) by {
        lemma_last_wins(by_id(items), new, n, id);
        lemma_last_wins(a, new, n, id);
    }
    assert forall|id: u32| a.dom().contains(id) implies #[trigger] a[id] == b[id] by {
        lemma_last_wins(by_id(items), new, n, id);
        lemma_last_wins(a, new, n, id);
    }
    assert(a =~= b);
}

/// Two lists of functions that share no identifier can be merged in either
/// order: under each identifier the list holds the same function.
pub proof fn law_merge_commutes(
    items: Seq<FunctionView>,
    first: Seq<FunctionView>,
    second: Seq<FunctionView>,
)
    requires
        ids_unique(items),
        forall|i: int, j: int|
            0 <= i < first.len() && 0 <= j < second.len() ==> (#[trigger] first[i]).fn_id != (
            #[trigger] second[j]).fn_id,
    ensures
        by_id(
            merge_items(merge_items(items, first, first.len() as int), second, second.len() as int),
        ) == by_id(
            merge_items(merge_items(items, second, second.len() as int), first, first.len() as int),
        ),
{
    let n = first.len() as int;
    let k = second.len() as int;
    let base = by_id(items);
    law_merge_keeps_ids_unique(items, first, n);
    law_merge_keeps_ids_unique(items, second, k);
    lemma_merge_by_id(items, first, n);
    lemma_merge_by_id(items, second, k);
    lemma_merge_by_id(merge_items(items, first, n), second, k);
    lemma_merge_by_id(merge_items(items, second, k), first, n);
    let a = last_wins(last_wins(base, first, n), second, k);
    let b = last_wins(last_wins(base, second, k), first, n);
    assert forall|id: u32| #[trigger] a.dom().contains(id) == b.dom().contains(id) by {
        lemma_last_wins(base, first, n, id);
        lemma_last_wins(base, second, k, id);
        lemma_last_wins(last_wins(base, first, n), second, k, id);
        lemma_last_wins(last_wins(base, second, k), first, n, id);
    }
    assert forall|id: u32| a.dom().contains(id) implies #[trigger] a[id] == b[id] by {
        lemma_last_wins(base, first, n, id);
        lemma_last_wins(base, second, k, id);
        lemma_last_wins(last_wins(base, first, n), second, k, id);
        lemma_last_wins(last_wins(base, second, k), first, n, id);
    }
    assert(a =~= b);
}

} // verus!
