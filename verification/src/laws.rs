//! Laws of the library, stated and proved over the spec functions that the
//! executable functions' contracts use.
use vstd::prelude::*;

use crate::element::{ElementView, Parent};
use crate::index::{exact_listing, rebuilt};
use crate::watch::flushed;

verus! {

/// Pairwise distinct identifiers in a sequence of elements.
pub open spec fn distinct_ids(items: Seq<ElementView>) -> bool {
    forall|i: int, j: int| 0 <= i < j < items.len() ==> items[i].id != items[j].id
}

proof fn lemma_rebuilt_entry(items: Seq<ElementView>, i: int)
    requires
        distinct_ids(items),
        0 <= i < items.len(),
    ensures
        rebuilt(items).contains_key(items[i].id),
        rebuilt(items)[items[i].id] == items[i],
    decreases items.len(),
{
    if i == items.len() - 1 {
    } else {
        let prefix = items.drop_last();
        assert(forall|a: int| 0 <= a < prefix.len() ==> prefix[a] == items[a]);
        assert(distinct_ids(prefix));
        lemma_rebuilt_entry(prefix, i);
        assert(items.last().id != items[i].id);
    }
}

proof fn lemma_rebuilt_key_source(items: Seq<ElementView>, k: u128)
    requires
        rebuilt(items).contains_key(k),
    ensures
        exists|i: int| 0 <= i < items.len() && (#[trigger] items[i]).id == k,
    decreases items.len(),
{
    if items.len() == 0 {
        assert(false);
    } else if items.last().id == k {
        assert(items[items.len() - 1].id == k);
    } else {
        let prefix = items.drop_last();
        lemma_rebuilt_key_source(prefix, k);
        let i = choose|i: int| 0 <= i < prefix.len() && (#[trigger] prefix[i]).id == k;
        assert(items[i].id == k);
    }
}

/// A rebuild keeps exactly what it was given: when the records carry
/// pairwise distinct identifiers, a root listing over the rebuilt index
/// holds exactly the given elements whose parent is the root — no extras,
/// no omissions.
pub proof fn lemma_rebuild_then_list_root(items: Seq<ElementView>, out: Seq<ElementView>)
    requires
        distinct_ids(items),
        exact_listing(rebuilt(items), (|e: ElementView| e.parent == Parent::Root), out),
    ensures
        forall|j: int|
            0 <= j < out.len() ==> items.contains(#[trigger] out[j]) && out[j].parent
                == Parent::Root,
        forall|i: int|
            0 <= i < items.len() && (#[trigger] items[i]).parent == Parent::Root ==> out.contains(
                items[i],
            ),
{
    let m = rebuilt(items);
    let sel = |e: ElementView| e.parent == Parent::Root;
    assert forall|j: int|
        0 <= j < out.len() implies items.contains(#[trigger] out[j]) && out[j].parent
        == Parent::Root by {
        assert(m.contains_key(out[j].id) && m[out[j].id] == out[j] && sel(out[j]));
        lemma_rebuilt_key_source(items, out[j].id);
        let i = choose|i: int| 0 <= i < items.len() && (#[trigger] items[i]).id == out[j].id;
        lemma_rebuilt_entry(items, i);
        assert(items[i] == out[j]);
    }
    assert forall|i: int|
        0 <= i < items.len() && (#[trigger] items[i]).parent == Parent::Root implies out.contains(
        items[i],
    ) by {
        lemma_rebuilt_entry(items, i);
        assert(m.contains_key(items[i].id) && sel(m[items[i].id]));
        let j = choose|j: int| 0 <= j < out.len() && (#[trigger] out[j]).id == items[i].id;
        assert(m[out[j].id] == out[j]);
        assert(out[j] == items[i]);
    }
}

/// Rebuilding is a pure function of the records read: two rebuilds from
/// equal record sequences — an unchanged store read twice — give index
/// contents equal by value.
pub proof fn lemma_rebuild_idempotent(first: Seq<ElementView>, second: Seq<ElementView>)
    requires
        first == second,
    ensures
        rebuilt(first) == rebuilt(second),
{
}

/// Notifications coalesce within a debounce window: noting an identifier
/// that is already pending leaves the pending set as it is, so a window's
/// flush reads each identifier once however many events named it.
pub proof fn lemma_notifications_coalesce(pending: Set<u128>, id: u128)
    ensures
        pending.insert(id).insert(id) == pending.insert(id),
{
    assert(pending.insert(id).insert(id) =~= pending.insert(id));
}

/// Deletes are applied strictly before updates within a flush: an
/// identifier queued for deletion whose re-read also succeeded in the same
/// window is present after the flush, mapped to the re-read element.
pub proof fn lemma_delete_then_update(
    m: Map<u128, ElementView>,
    dels: Seq<u128>,
    ups: Seq<(u128, Option<ElementView>)>,
    j: int,
)
    requires
        0 <= j < ups.len(),
        ups[j].1 is Some,
        forall|i1: int, i2: int| 0 <= i1 < i2 < ups.len() ==> ups[i1].0 != ups[i2].0,
    ensures
        flushed(m, dels, ups).contains_key(ups[j].0),
        ups[j].1 == Option::Some(flushed(m, dels, ups)[ups[j].0]),
    decreases ups.len(),
{
    if j == ups.len() - 1 {
    } else {
        let prefix = ups.drop_last();
        assert(forall|a: int| 0 <= a < prefix.len() ==> prefix[a] == ups[a]);
        lemma_delete_then_update(m, dels, prefix, j);
        assert(ups.last().0 != ups[j].0);
    }
}

} // verus!
