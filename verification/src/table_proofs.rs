use crate::codec::stored;
use crate::page::PAGE_SIZE;
use crate::table_layout::{
    count_of, decode, free_ptr_of, same_bytes, same_entry, same_links, size_len, slot_data_of,
    slot_of, slot_offset_of, slot_size_of, SlotView, TablePageView, DELETE_MASK, MAX_SLOTS,
    OFFSET_TUPLE_SIZE, SIZE_TABLE_PAGE_HEADER, SIZE_TUPLE,
};
use vstd::prelude::*;

verus! {

/// A slot reads the same from two byte strings that agree on its directory
/// entry and on the bytes of its tuple.
pub proof fn lemma_same_slot(a: Seq<u8>, b: Seq<u8>, i: int)
    requires
        a.len() == b.len(),
        same_entry(a, b, i),
        same_bytes(
            a,
            b,
            slot_offset_of(a, i) as int,
            slot_offset_of(a, i) + size_len(slot_size_of(a, i)),
        ),
    ensures
        slot_of(a, i) == slot_of(b, i),
{
    assert(slot_data_of(a, i) =~= slot_data_of(b, i));
}

/// A slot whose tuple has moved by `delta` bytes, bytes and directory entry
/// alike, reads as the slot shifted by `delta`.
pub proof fn lemma_moved_slot(a: Seq<u8>, b: Seq<u8>, i: int, delta: int)
    requires
        a.len() == b.len(),
        slot_size_of(b, i) == slot_size_of(a, i),
        slot_offset_of(b, i) == slot_offset_of(a, i) + delta,
        slot_offset_of(a, i) + size_len(slot_size_of(a, i)) <= a.len(),
        slot_offset_of(a, i) + delta + size_len(slot_size_of(a, i)) <= a.len(),
        forall|j: int|
            slot_offset_of(a, i) + delta <= j < slot_offset_of(a, i) + delta + size_len(
                slot_size_of(a, i),
            ) ==> #[trigger] b[j] == a[j - delta],
    ensures
        slot_of(b, i) == slot_of(a, i).shifted(delta),
{
    assert(slot_data_of(a, i) =~= slot_data_of(b, i));
}

/// What the directory says of an occupied slot of a well-formed page.
pub proof fn lemma_occupied_slot(a: Seq<u8>, i: int)
    requires
        a.len() == PAGE_SIZE,
        decode(a).wf(),
        0 <= i < count_of(a),
    ensures
        i < MAX_SLOTS,
        decode(a).slots[i] == slot_of(a, i),
        slot_of(a, i).occupied() <==> slot_size_of(a, i) != 0,
        slot_of(a, i) is Tombstoned <==> slot_size_of(a, i) >= DELETE_MASK,
        slot_of(a, i).offset() == (if slot_size_of(a, i) != 0 {
            slot_offset_of(a, i) as int
        } else {
            0
        }),
        slot_size_of(a, i) != 0 ==> {
            &&& size_len(slot_size_of(a, i)) > 0
            &&& slot_of(a, i).data().len() == size_len(slot_size_of(a, i))
            &&& free_ptr_of(a) <= slot_offset_of(a, i)
            &&& slot_offset_of(a, i) + size_len(slot_size_of(a, i)) <= PAGE_SIZE
            &&& slot_of(a, i).data() == a.subrange(
                slot_offset_of(a, i) as int,
                slot_offset_of(a, i) + size_len(slot_size_of(a, i)),
            )
        },
{
    let s = decode(a).slots[i];
    assert(s == slot_of(a, i));
    if slot_size_of(a, i) != 0 {
        assert(s.occupied());
        assert(s.data().len() > 0);
    }
}

/// The bytes after an insert hold the page with the tuple stored.
pub proof fn lemma_inserted(a: Seq<u8>, b: Seq<u8>, k: int, data: Seq<u8>)
    requires
        a.len() == PAGE_SIZE,
        b.len() == PAGE_SIZE,
        decode(a).wf(),
        decode(a).is_insert_slot(k),
        0 < data.len(),
        data.len() + SIZE_TUPLE <= decode(a).free_space_remaining(),
        same_links(a, b),
        free_ptr_of(b) == free_ptr_of(a) - data.len(),
        count_of(b) == (if k < count_of(a) {
            count_of(a)
        } else {
            count_of(a) + 1
        }),
        slot_offset_of(b, k) == free_ptr_of(b),
        slot_size_of(b, k) == data.len(),
        forall|i: int| 0 <= i < count_of(a) && i != k ==> #[trigger] same_entry(a, b, i),
        same_bytes(a, b, free_ptr_of(a), PAGE_SIZE as int),
        b.subrange(free_ptr_of(b), free_ptr_of(a)) == data,
    ensures
        decode(b) == decode(a).inserted(k, data),
        decode(b).wf(),
{
    let va = decode(a);
    let vb = decode(b);
    let want = va.inserted(k, data);
    assert(slot_data_of(b, k) =~= data);
    assert forall|i: int| 0 <= i < count_of(b) implies vb.slots[i] == want.slots[i] by {
        if i != k {
            lemma_occupied_slot(a, i);
            assert(same_entry(a, b, i));
            lemma_same_slot(a, b, i);
        }
    }
    assert(vb.slots =~= want.slots);
    assert forall|i: int| 0 <= i < want.slots.len() && (#[trigger] want.slots[i]).occupied() implies {
        &&& want.slots[i].data().len() > 0
        &&& want.free_space_pointer <= want.slots[i].offset()
        &&& want.slots[i].end() <= PAGE_SIZE
    } by {
        if i != k {
            assert(want.slots[i] == va.slots[i]);
        }
    }
    assert forall|i: int, j: int|
        0 <= i < want.slots.len() && 0 <= j < want.slots.len() && i != j && (
        #[trigger] want.slots[i]).occupied() && (#[trigger] want.slots[j]).occupied() implies {
        ||| want.slots[i].end() <= want.slots[j].offset()
        ||| want.slots[j].end() <= want.slots[i].offset()
    } by {
        if i != k {
            assert(want.slots[i] == va.slots[i]);
        }
        if j != k {
            assert(want.slots[j] == va.slots[j]);
        }
    }
}

/// The bytes after the size field of an occupied slot has been rewritten,
/// with the length in it kept, hold the page with that slot marked deleted
/// or live again, as the deletion bit of the new field says.
pub proof fn lemma_remarked(a: Seq<u8>, b: Seq<u8>, k: int, size: u32)
    requires
        a.len() == PAGE_SIZE,
        decode(a).wf(),
        0 <= k < count_of(a),
        slot_size_of(a, k) != 0,
        size_len(size) == size_len(slot_size_of(a, k)),
        stored(a, b, OFFSET_TUPLE_SIZE + SIZE_TUPLE * k, size),
    ensures
        decode(b).wf(),
        size >= DELETE_MASK ==> decode(b) == (TablePageView {
            slots: decode(a).slots.update(
                k,
                SlotView::Tombstoned {
                    offset: decode(a).slots[k].offset(),
                    data: decode(a).slots[k].data(),
                },
            ),
            ..decode(a)
        }),
        size < DELETE_MASK ==> decode(b) == (TablePageView {
            slots: decode(a).slots.update(
                k,
                SlotView::Live {
                    offset: decode(a).slots[k].offset(),
                    data: decode(a).slots[k].data(),
                },
            ),
            ..decode(a)
        }),
{
    let va = decode(a);
    let vb = decode(b);
    lemma_occupied_slot(a, k);
    assert(count_of(b) == count_of(a));
    assert(free_ptr_of(b) == free_ptr_of(a));
    assert(slot_offset_of(b, k) == slot_offset_of(a, k));
    assert(slot_size_of(b, k) == size);
    assert(slot_data_of(b, k) =~= slot_data_of(a, k));
    let want = va.slots.update(k, slot_of(b, k));
    assert forall|i: int| 0 <= i < count_of(b) implies vb.slots[i] == want[i] by {
        if i != k {
            lemma_occupied_slot(a, i);
            assert(same_entry(a, b, i));
            lemma_same_slot(a, b, i);
        }
    }
    assert(vb.slots =~= want);
    assert forall|i: int| 0 <= i < vb.slots.len() && (#[trigger] vb.slots[i]).occupied() implies {
        &&& vb.slots[i].data().len() > 0
        &&& vb.free_space_pointer <= vb.slots[i].offset()
        &&& vb.slots[i].end() <= PAGE_SIZE
    } by {
        assert(va.slots[i].occupied());
    }
    assert forall|i: int, j: int|
        0 <= i < vb.slots.len() && 0 <= j < vb.slots.len() && i != j && (
        #[trigger] vb.slots[i]).occupied() && (#[trigger] vb.slots[j]).occupied() implies {
        ||| vb.slots[i].end() <= vb.slots[j].offset()
        ||| vb.slots[j].end() <= vb.slots[i].offset()
    } by {
        assert(va.slots[i].occupied());
        assert(va.slots[j].occupied());
    }
}

/// Where the offset field of slot `i` stands after the tuples stored below
/// `from` have moved up by `delta`.
pub open spec fn shifted_offset(a: Seq<u8>, i: int, from: int, delta: int) -> int {
    if slot_size_of(a, i) != 0 && slot_offset_of(a, i) < from {
        slot_offset_of(a, i) + delta
    } else {
        slot_offset_of(a, i) as int
    }
}

/// The bytes after the tuple under slot `k` has given up `delta` of its
/// bytes (all of them, when `slot` is free; fewer than none, when it has
/// grown) hold the page with its directory repacked: the tuples below have
/// moved up by `delta`, and the free space has grown by as much.
pub proof fn lemma_repacked(a: Seq<u8>, b: Seq<u8>, k: int, delta: int, slot: SlotView)
    requires
        a.len() == PAGE_SIZE,
        b.len() == PAGE_SIZE,
        decode(a).wf(),
        0 <= k < count_of(a),
        slot_size_of(a, k) != 0,
        delta <= size_len(slot_size_of(a, k)),
        SIZE_TABLE_PAGE_HEADER + SIZE_TUPLE * count_of(a) <= free_ptr_of(a) + delta,
        same_links(a, b),
        count_of(b) == count_of(a),
        free_ptr_of(b) == free_ptr_of(a) + delta,
        slot_of(b, k) == slot,
        slot is Free || slot == (SlotView::Live {
            offset: slot_offset_of(a, k) + delta,
            data: slot.data(),
        }),
        slot.data().len() == size_len(slot_size_of(a, k)) - delta,
        slot is Live ==> slot.data().len() > 0,
        forall|i: int|
            0 <= i < count_of(a) && i != k ==> #[trigger] slot_size_of(b, i) == slot_size_of(a, i),
        forall|i: int|
            0 <= i < count_of(a) && i != k ==> #[trigger] slot_offset_of(b, i) == shifted_offset(
                a,
                i,
                slot_offset_of(a, k) as int,
                delta,
            ),
        forall|j: int|
            0 <= j && free_ptr_of(a) + delta <= j < slot_offset_of(a, k) + delta ==> #[trigger] b[j]
                == a[j - delta],
        forall|j: int|
            slot_offset_of(a, k) + size_len(slot_size_of(a, k)) <= j < PAGE_SIZE ==> #[trigger] b[j]
                == a[j],
    ensures
        decode(b) == (TablePageView {
            free_space_pointer: decode(a).free_space_pointer + delta,
            slots: decode(a).repacked(k, decode(a).slots[k].offset(), delta, slot),
            ..decode(a)
        }),
        decode(b).wf(),
{
    let va = decode(a);
    let vb = decode(b);
    let from = slot_offset_of(a, k) as int;
    let to = from + size_len(slot_size_of(a, k));
    lemma_occupied_slot(a, k);
    let want = va.repacked(k, from, delta, slot);
    assert forall|i: int| 0 <= i < count_of(b) implies vb.slots[i] == want[i] by {
        if i != k {
            lemma_occupied_slot(a, i);
            assert(slot_size_of(b, i) == slot_size_of(a, i));
            assert(slot_offset_of(b, i) == shifted_offset(a, i, from, delta));
            if slot_size_of(a, i) != 0 {
                assert(va.slots[i].occupied() && va.slots[k].occupied());
                if slot_offset_of(a, i) < from {
                    assert(va.slots[i].end() <= from);
                    lemma_moved_slot(a, b, i, delta);
                } else {
                    assert(to <= slot_offset_of(a, i));
                    lemma_same_slot(a, b, i);
                }
            }
        }
    }
    assert(vb.slots =~= want);
    assert forall|i: int| 0 <= i < vb.slots.len() && (#[trigger] vb.slots[i]).occupied() implies {
        &&& vb.slots[i].data().len() > 0
        &&& vb.free_space_pointer <= vb.slots[i].offset()
        &&& vb.slots[i].end() <= PAGE_SIZE
    } by {
        assert(vb.slots[i] == want[i]);
        if i != k {
            assert(va.slots[i].occupied() && va.slots[k].occupied());
        }
    }
    assert forall|i: int, j: int|
        0 <= i < vb.slots.len() && 0 <= j < vb.slots.len() && i != j && (
        #[trigger] vb.slots[i]).occupied() && (#[trigger] vb.slots[j]).occupied() implies {
        ||| vb.slots[i].end() <= vb.slots[j].offset()
        ||| vb.slots[j].end() <= vb.slots[i].offset()
    } by {
        assert(vb.slots[i] == want[i]);
        assert(vb.slots[j] == want[j]);
        assert(va.slots[k].occupied());
        if i != k {
            assert(va.slots[i].occupied());
        }
        if j != k {
            assert(va.slots[j].occupied());
        }
    }
}

/// Two byte strings that agree on the directory and on the stored tuples
/// hold the same slots.
pub proof fn lemma_same_slots(a: Seq<u8>, b: Seq<u8>)
    requires
        a.len() == PAGE_SIZE,
        b.len() == PAGE_SIZE,
        decode(a).wf(),
        count_of(b) == count_of(a),
        free_ptr_of(b) == free_ptr_of(a),
        forall|i: int| 0 <= i < count_of(a) ==> #[trigger] same_entry(a, b, i),
        same_bytes(a, b, free_ptr_of(a), PAGE_SIZE as int),
    ensures
        decode(b).slots == decode(a).slots,
        decode(b).free_space_pointer == decode(a).free_space_pointer,
{
    assert forall|i: int| 0 <= i < count_of(a) implies decode(b).slots[i] == decode(a).slots[i] by {
        lemma_occupied_slot(a, i);
        assert(same_entry(a, b, i));
        lemma_same_slot(a, b, i);
    }
    assert(decode(b).slots =~= decode(a).slots);
}

/// The layout rules of a table page, said of the numbers that its bytes
/// hold.
pub open spec fn raw_wf(b: Seq<u8>) -> bool {
    &&& decode(b).page_id != 0
    &&& SIZE_TABLE_PAGE_HEADER + SIZE_TUPLE * count_of(b) <= free_ptr_of(b) <= PAGE_SIZE
    &&& forall|i: int|
        0 <= i < count_of(b) && #[trigger] slot_size_of(b, i) != 0 ==> {
            &&& size_len(slot_size_of(b, i)) > 0
            &&& free_ptr_of(b) <= slot_offset_of(b, i)
            &&& slot_offset_of(b, i) + size_len(slot_size_of(b, i)) <= PAGE_SIZE
        }
    &&& forall|i: int, j: int|
        0 <= i < j < count_of(b) && #[trigger] slot_size_of(b, i) != 0 && #[trigger] slot_size_of(
            b,
            j,
        ) != 0 ==> {
            ||| slot_offset_of(b, i) + size_len(slot_size_of(b, i)) <= slot_offset_of(b, j)
            ||| slot_offset_of(b, j) + size_len(slot_size_of(b, j)) <= slot_offset_of(b, i)
        }
}

/// The numbers on a page obey the layout rules exactly when the page that
/// they make up does.
pub proof fn lemma_raw_wf(b: Seq<u8>)
    requires
        b.len() == PAGE_SIZE,
    ensures
        raw_wf(b) <==> decode(b).wf(),
{
    let v = decode(b);
    if raw_wf(b) {
        assert forall|i: int| 0 <= i < v.slots.len() && (#[trigger] v.slots[i]).occupied() implies {
            &&& v.slots[i].data().len() > 0
            &&& v.free_space_pointer <= v.slots[i].offset()
            &&& v.slots[i].end() <= PAGE_SIZE
        } by {
            assert(v.slots[i] == slot_of(b, i));
            assert(slot_size_of(b, i) != 0);
        }
        assert forall|i: int, j: int|
            0 <= i < v.slots.len() && 0 <= j < v.slots.len() && i != j && (
            #[trigger] v.slots[i]).occupied() && (#[trigger] v.slots[j]).occupied() implies {
            ||| v.slots[i].end() <= v.slots[j].offset()
            ||| v.slots[j].end() <= v.slots[i].offset()
        } by {
            assert(v.slots[i] == slot_of(b, i));
            assert(v.slots[j] == slot_of(b, j));
            assert(slot_size_of(b, i) != 0 && slot_size_of(b, j) != 0);
        }
    }
    if v.wf() {
        assert forall|i: int| 0 <= i < count_of(b) && #[trigger] slot_size_of(b, i) != 0 implies {
            &&& size_len(slot_size_of(b, i)) > 0
            &&& free_ptr_of(b) <= slot_offset_of(b, i)
            &&& slot_offset_of(b, i) + size_len(slot_size_of(b, i)) <= PAGE_SIZE
        } by {
            lemma_occupied_slot(b, i);
        }
        assert forall|i: int, j: int|
            0 <= i < j < count_of(b) && #[trigger] slot_size_of(b, i) != 0
                && #[trigger] slot_size_of(b, j) != 0 implies {
            ||| slot_offset_of(b, i) + size_len(slot_size_of(b, i)) <= slot_offset_of(b, j)
            ||| slot_offset_of(b, j) + size_len(slot_size_of(b, j)) <= slot_offset_of(b, i)
        } by {
            lemma_occupied_slot(b, i);
            lemma_occupied_slot(b, j);
            assert(v.slots[i].occupied() && v.slots[j].occupied());
        }
    }
}

/// A page of zero bytes holds no links and no deletion mark.
pub proof fn lemma_blank_page(b: Seq<u8>)
    requires
        b.len() == PAGE_SIZE,
        forall|i: int| 0 <= i < b.len() ==> #[trigger] b[i] == 0,
    ensures
        decode(b).next_page_id == 0,
        decode(b).lsn == 0,
        !decode(b).deleted,
{
    reveal(crate::codec::u32_le);
}

} // verus!
