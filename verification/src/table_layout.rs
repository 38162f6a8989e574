use crate::codec::u32_le;
use crate::page::PAGE_SIZE;
use vstd::prelude::*;

verus! {

/// Where the slot directory of a table page begins: the size of its header.
pub const SIZE_TABLE_PAGE_HEADER: usize = 25;

/// The size of one entry of the slot directory: an offset and a size.
pub const SIZE_TUPLE: usize = 8;

/// Where the flag stands that marks the whole page as deleted.
pub const OFFSET_DELETED: usize = 4;

/// Where the log sequence number stands.
pub const OFFSET_LSN: usize = 5;

/// Where the identifier of the previous page stands.
pub const OFFSET_PREV_PAGE_ID: usize = 9;

/// Where the identifier of the next page stands.
pub const OFFSET_NEXT_PAGE_ID: usize = 13;

/// Where the free space pointer stands.
pub const OFFSET_FREE_SPACE: usize = 17;

/// Where the tuple count stands.
pub const OFFSET_TUPLE_COUNT: usize = 21;

/// Where the offset of the first slot stands.
pub const OFFSET_TUPLE_OFFSET: usize = 25;

/// Where the size of the first slot stands.
pub const OFFSET_TUPLE_SIZE: usize = 29;

/// The bit of a slot's size field that marks the tuple as deleted.
pub const DELETE_MASK: u32 = 0x8000_0000;

/// How many slots a page can hold at most.
pub const MAX_SLOTS: usize = 508;

/// One entry of the slot directory, as the operations see it.
pub enum SlotView {
    /// No tuple; the next insert may take the slot.
    Free,
    /// A tuple, stored from `offset` on.
    Live { offset: int, data: Seq<u8> },
    /// A tuple that is marked deleted; its bytes are still stored from
    /// `offset` on.
    Tombstoned { offset: int, data: Seq<u8> },
}

impl SlotView {
    /// Whether the slot holds a tuple, deleted or not.
    pub open spec fn occupied(self) -> bool {
        !(self is Free)
    }

    /// Where the bytes of the tuple begin (0 for a free slot).
    pub open spec fn offset(self) -> int {
        match self {
            SlotView::Free => 0,
            SlotView::Live { offset, .. } => offset,
            SlotView::Tombstoned { offset, .. } => offset,
        }
    }

    /// The bytes of the tuple (none for a free slot).
    pub open spec fn data(self) -> Seq<u8> {
        match self {
            SlotView::Free => Seq::empty(),
            SlotView::Live { data, .. } => data,
            SlotView::Tombstoned { data, .. } => data,
        }
    }

    /// One past the last byte of the tuple.
    pub open spec fn end(self) -> int {
        self.offset() + self.data().len()
    }

    /// The slot with its tuple `delta` bytes further up the page.
    pub open spec fn shifted(self, delta: int) -> SlotView {
        match self {
            SlotView::Free => SlotView::Free,
            SlotView::Live { offset, data } => SlotView::Live { offset: offset + delta, data },
            SlotView::Tombstoned { offset, data } => SlotView::Tombstoned {
                offset: offset + delta,
                data,
            },
        }
    }

    /// The slot with its tuple marked deleted.
    pub open spec fn tombstoned(self) -> SlotView {
        match self {
            SlotView::Live { offset, data } => SlotView::Tombstoned { offset, data },
            _ => self,
        }
    }

    /// The slot with the deletion mark taken off its tuple.
    pub open spec fn revived(self) -> SlotView {
        match self {
            SlotView::Tombstoned { offset, data } => SlotView::Live { offset, data },
            _ => self,
        }
    }
}

/// A table page, as the operations see it.
pub struct TablePageView {
    pub page_id: u32,
    pub deleted: bool,
    pub lsn: u32,
    pub prev_page_id: u32,
    pub next_page_id: u32,
    /// Where the stored tuples begin; the bytes between the slot directory
    /// and this offset are free.
    pub free_space_pointer: int,
    /// The slot directory. Its length is the page's tuple count.
    pub slots: Seq<SlotView>,
}

impl TablePageView {
    /// The layout rules of a table page: the directory ends before the tuples
    /// begin, every stored tuple lies between the free space and the end of
    /// the page, and no two stored tuples share a byte.
    pub open spec fn wf(self) -> bool {
        &&& self.page_id != 0
        &&& SIZE_TABLE_PAGE_HEADER + SIZE_TUPLE * self.slots.len() <= self.free_space_pointer
            <= PAGE_SIZE
        &&& forall|i: int|
            0 <= i < self.slots.len() && (#[trigger] self.slots[i]).occupied() ==> {
                &&& self.slots[i].data().len() > 0
                &&& self.free_space_pointer <= self.slots[i].offset()
                &&& self.slots[i].end() <= PAGE_SIZE
            }
        &&& forall|i: int, j: int|
            0 <= i < self.slots.len() && 0 <= j < self.slots.len() && i != j && (
            #[trigger] self.slots[i]).occupied() && (#[trigger] self.slots[j]).occupied() ==> {
                ||| self.slots[i].end() <= self.slots[j].offset()
                ||| self.slots[j].end() <= self.slots[i].offset()
            }
    }

    /// How many bytes are free between the slot directory and the tuples.
    pub open spec fn free_space_remaining(self) -> int {
        self.free_space_pointer - SIZE_TABLE_PAGE_HEADER - SIZE_TUPLE * self.slots.len()
    }

    /// Whether slot `k` exists and holds a tuple that is not marked deleted.
    pub open spec fn is_live(self, k: int) -> bool {
        0 <= k < self.slots.len() && self.slots[k] is Live
    }

    /// Whether slot `k` exists and holds a tuple that is marked deleted.
    pub open spec fn is_tombstoned(self, k: int) -> bool {
        0 <= k < self.slots.len() && self.slots[k] is Tombstoned
    }

    /// The bytes that a reader finds under slot `k`: those of a live tuple,
    /// and nothing under a slot that is free, marked deleted or not there.
    pub open spec fn tuple(self, k: int) -> Option<Seq<u8>> {
        if self.is_live(k) {
            Some(self.slots[k].data())
        } else {
            None
        }
    }

    /// Whether `k` is the slot that the next insert takes: the lowest free
    /// slot, or a new one behind the directory when no slot is free.
    pub open spec fn is_insert_slot(self, k: int) -> bool {
        &&& 0 <= k <= self.slots.len()
        &&& forall|i: int| 0 <= i < k ==> (#[trigger] self.slots[i]).occupied()
        &&& k < self.slots.len() ==> self.slots[k] is Free
    }

    /// Whether `k` is the first live slot at or after `from`.
    pub open spec fn is_first_live_from(self, from: int, k: int) -> bool {
        &&& from <= k
        &&& self.is_live(k)
        &&& forall|i: int| from <= i < k ==> !self.is_live(i)
    }

    /// Whether no slot at or after `from` is live.
    pub open spec fn none_live_from(self, from: int) -> bool {
        forall|i: int| from <= i ==> !self.is_live(i)
    }

    /// The page after `data` has been stored under slot `k`: the tuple goes
    /// directly below the tuples stored so far.
    pub open spec fn inserted(self, k: int, data: Seq<u8>) -> TablePageView {
        let at = self.free_space_pointer - data.len();
        let slot = SlotView::Live { offset: at, data };
        TablePageView {
            free_space_pointer: at,
            slots: if k < self.slots.len() {
                self.slots.update(k, slot)
            } else {
                self.slots.push(slot)
            },
            ..self
        }
    }

    /// The page after the tuple under slot `k` has been marked deleted.
    pub open spec fn marked(self, k: int) -> TablePageView {
        TablePageView { slots: self.slots.update(k, self.slots[k].tombstoned()), ..self }
    }

    /// The page after the deletion mark has been taken off slot `k`.
    pub open spec fn restored(self, k: int) -> TablePageView {
        TablePageView { slots: self.slots.update(k, self.slots[k].revived()), ..self }
    }

    /// The directory after the tuple that began at `from` has changed its
    /// length by `-delta`: slot `k` becomes `slot`, and every tuple stored
    /// below `from` moves up by `delta`.
    pub open spec fn repacked(self, k: int, from: int, delta: int, slot: SlotView) -> Seq<
        SlotView,
    > {
        Seq::new(
            self.slots.len(),
            |i: int|
                if i == k {
                    slot
                } else if self.slots[i].occupied() && self.slots[i].offset() < from {
                    self.slots[i].shifted(delta)
                } else {
                    self.slots[i]
                },
        )
    }

    /// The page after the tuple under slot `k` has been removed for good: the
    /// slot is free, the tuples stored below it have moved up by its length,
    /// and the free space has grown by as much.
    pub open spec fn removed(self, k: int) -> TablePageView {
        let gone = self.slots[k];
        TablePageView {
            free_space_pointer: self.free_space_pointer + gone.data().len(),
            slots: self.repacked(k, gone.offset(), gone.data().len() as int, SlotView::Free),
            ..self
        }
    }

    /// The page after the tuple under slot `k` has been replaced by `data`:
    /// the new bytes end where the old ones ended, and the tuples stored
    /// below have moved by the difference of the two lengths.
    pub open spec fn updated(self, k: int, data: Seq<u8>) -> TablePageView {
        let was = self.slots[k];
        let delta = was.data().len() - data.len();
        TablePageView {
            free_space_pointer: self.free_space_pointer + delta,
            slots: self.repacked(
                k,
                was.offset(),
                delta,
                SlotView::Live { offset: was.offset() + delta, data },
            ),
            ..self
        }
    }
}

/// Whether a size field marks its slot as holding no readable tuple: the
/// deletion bit is set, or the slot is free.
pub open spec fn size_is_deleted(size: u32) -> bool {
    size >= DELETE_MASK || size == 0
}

/// The length of the tuple that a size field stands for.
pub open spec fn size_len(size: u32) -> int {
    if size >= DELETE_MASK {
        size - DELETE_MASK
    } else {
        size as int
    }
}

/// The tuple count that the bytes hold.
pub open spec fn count_of(b: Seq<u8>) -> int {
    u32_le(b, OFFSET_TUPLE_COUNT as int) as int
}

/// The free space pointer that the bytes hold.
pub open spec fn free_ptr_of(b: Seq<u8>) -> int {
    u32_le(b, OFFSET_FREE_SPACE as int) as int
}

/// The offset field of slot `i`.
pub open spec fn slot_offset_of(b: Seq<u8>, i: int) -> u32 {
    u32_le(b, OFFSET_TUPLE_OFFSET + SIZE_TUPLE * i)
}

/// The size field of slot `i`, deletion bit included.
pub open spec fn slot_size_of(b: Seq<u8>, i: int) -> u32 {
    u32_le(b, OFFSET_TUPLE_SIZE + SIZE_TUPLE * i)
}

/// The bytes of the tuple under slot `i`; none where the slot points outside
/// the page.
pub open spec fn slot_data_of(b: Seq<u8>, i: int) -> Seq<u8> {
    let from = slot_offset_of(b, i) as int;
    let to = from + size_len(slot_size_of(b, i));
    if to <= b.len() {
        b.subrange(from, to)
    } else {
        Seq::empty()
    }
}

/// Slot `i` of the page that the bytes hold.
pub open spec fn slot_of(b: Seq<u8>, i: int) -> SlotView {
    let size = slot_size_of(b, i);
    if size == 0 {
        SlotView::Free
    } else if size >= DELETE_MASK {
        SlotView::Tombstoned { offset: slot_offset_of(b, i) as int, data: slot_data_of(b, i) }
    } else {
        SlotView::Live { offset: slot_offset_of(b, i) as int, data: slot_data_of(b, i) }
    }
}

/// The table page that the bytes hold.
pub open spec fn decode(b: Seq<u8>) -> TablePageView {
    TablePageView {
        page_id: u32_le(b, 0),
        deleted: b[OFFSET_DELETED as int] != 0,
        lsn: u32_le(b, OFFSET_LSN as int),
        prev_page_id: u32_le(b, OFFSET_PREV_PAGE_ID as int),
        next_page_id: u32_le(b, OFFSET_NEXT_PAGE_ID as int),
        free_space_pointer: free_ptr_of(b),
        slots: Seq::new(count_of(b) as nat, |i: int| slot_of(b, i)),
    }
}

/// Whether two byte strings of equal length hold the same bytes in
/// `[lo, hi)`.
pub open spec fn same_bytes(a: Seq<u8>, b: Seq<u8>, lo: int, hi: int) -> bool {
    &&& a.len() == b.len()
    &&& forall|j: int| lo <= j < hi && 0 <= j < a.len() ==> #[trigger] a[j] == b[j]
}

/// Whether two byte strings hold the same header fields, the free space
/// pointer and the tuple count aside.
pub open spec fn same_links(a: Seq<u8>, b: Seq<u8>) -> bool {
    &&& u32_le(a, 0) == u32_le(b, 0)
    &&& a[OFFSET_DELETED as int] == b[OFFSET_DELETED as int]
    &&& u32_le(a, OFFSET_LSN as int) == u32_le(b, OFFSET_LSN as int)
    &&& u32_le(a, OFFSET_PREV_PAGE_ID as int) == u32_le(b, OFFSET_PREV_PAGE_ID as int)
    &&& u32_le(a, OFFSET_NEXT_PAGE_ID as int) == u32_le(b, OFFSET_NEXT_PAGE_ID as int)
}

/// Whether two byte strings hold the same directory entry for slot `i`.
pub open spec fn same_entry(a: Seq<u8>, b: Seq<u8>, i: int) -> bool {
    &&& slot_offset_of(a, i) == slot_offset_of(b, i)
    &&& slot_size_of(a, i) == slot_size_of(b, i)
}

} // verus!
