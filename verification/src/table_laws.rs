use crate::page::PAGE_SIZE;
use crate::table_layout::TablePageView;
use vstd::prelude::*;

verus! {

/// Every live tuple of a well-formed page lies between the free space
/// pointer and the end of the page.
pub proof fn law_live_slot_in_bounds(v: TablePageView, i: int)
    requires
        v.wf(),
        v.is_live(i),
    ensures
        v.free_space_pointer <= v.slots[i].offset(),
        v.slots[i].offset() + v.slots[i].data().len() <= PAGE_SIZE,
{
    assert(v.slots[i].occupied());
}

/// No two live tuples of a well-formed page share a byte.
pub proof fn law_live_slots_disjoint(v: TablePageView, i: int, j: int)
    requires
        v.wf(),
        v.is_live(i),
        v.is_live(j),
        i != j,
    ensures
        v.slots[i].offset() + v.slots[i].data().len() <= v.slots[j].offset() || v.slots[j].offset()
            + v.slots[j].data().len() <= v.slots[i].offset(),
{
    assert(v.slots[i].occupied() && v.slots[j].occupied());
}

/// The free space of a well-formed page is never negative.
pub proof fn law_free_space_not_negative(v: TablePageView)
    requires
        v.wf(),
    ensures
        v.free_space_remaining() >= 0,
{
}

/// No operation on tuples makes the tuple count smaller: an insert keeps it
/// or adds one, and an update, a deletion mark, its removal and the removal
/// of the tuple keep it.
pub proof fn law_tuple_count_never_shrinks(v: TablePageView, k: int, data: Seq<u8>)
    requires
        0 <= k <= v.slots.len(),
    ensures
        v.inserted(k, data).slots.len() >= v.slots.len(),
        k < v.slots.len() ==> {
            &&& v.updated(k, data).slots.len() == v.slots.len()
            &&& v.marked(k).slots.len() == v.slots.len()
            &&& v.restored(k).slots.len() == v.slots.len()
            &&& v.removed(k).slots.len() == v.slots.len()
        },
{
}

/// Once a tuple has been removed for good, a reader finds nothing under its
/// identifier.
pub proof fn law_removed_tuple_not_found(v: TablePageView, k: int)
    requires
        0 <= k < v.slots.len(),
    ensures
        v.removed(k).tuple(k) is None,
{
}

/// A reader finds under the slot of an insert the bytes that were inserted.
pub proof fn law_insert_then_get(v: TablePageView, k: int, data: Seq<u8>)
    requires
        v.is_insert_slot(k),
    ensures
        v.inserted(k, data).tuple(k) == Some(data),
{
}

/// An insert leaves every other tuple of the page as a reader found it.
pub proof fn law_insert_keeps_others(v: TablePageView, k: int, data: Seq<u8>, j: int)
    requires
        v.is_insert_slot(k),
        j != k,
    ensures
        v.inserted(k, data).tuple(j) == v.tuple(j),
{
}

/// A deletion mark hides the tuple from a reader, and taking the mark off
/// gives the page back as it was, the bytes of the tuple included.
pub proof fn law_mark_then_rollback(v: TablePageView, k: int)
    requires
        v.is_live(k),
    ensures
        v.marked(k).tuple(k) is None,
        v.marked(k).restored(k) == v,
        v.marked(k).restored(k).tuple(k) == v.tuple(k),
        v.tuple(k) == Some(v.slots[k].data()),
{
    assert(v.marked(k).restored(k).slots =~= v.slots);
}

/// An update replaces the bytes of its tuple and leaves the bytes of every
/// other tuple of the page as they were.
pub proof fn law_update_keeps_others(v: TablePageView, k: int, data: Seq<u8>, j: int)
    requires
        v.is_live(k),
    ensures
        v.updated(k, data).tuple(k) == Some(data),
        j != k ==> v.updated(k, data).tuple(j) == v.tuple(j),
{
}

/// Removing a tuple for good leaves the bytes of every other tuple of the
/// page as they were.
pub proof fn law_remove_keeps_others(v: TablePageView, k: int, j: int)
    requires
        0 <= k < v.slots.len(),
        j != k,
    ensures
        v.removed(k).tuple(j) == v.tuple(j),
{
}

} // verus!
