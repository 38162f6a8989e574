use crate::clock_replacer::ClockStatus;
use crate::codec::{stored, u32_le};
use crate::error::{value_error, Error};
use crate::page::{Page, PAGE_SIZE};
use crate::table_layout::{
    count_of, decode, free_ptr_of, same_entry, same_links, size_is_deleted, size_len,
    slot_data_of, slot_of, slot_offset_of, slot_size_of, SlotView, TablePageView, DELETE_MASK,
    MAX_SLOTS, OFFSET_DELETED, OFFSET_FREE_SPACE, OFFSET_LSN, OFFSET_NEXT_PAGE_ID,
    OFFSET_PREV_PAGE_ID, OFFSET_TUPLE_COUNT, OFFSET_TUPLE_OFFSET, OFFSET_TUPLE_SIZE,
    SIZE_TABLE_PAGE_HEADER, SIZE_TUPLE,
};
use crate::table_proofs::{
    lemma_inserted, lemma_occupied_slot, lemma_raw_wf, lemma_remarked, lemma_repacked,
    lemma_same_slots, raw_wf, shifted_offset,
};
use crate::tuple::{Tuple, TupleView, RID};
use vstd::prelude::*;

verus! {

/// A slotted page: a header, a slot directory that grows upwards behind it,
/// and tuples that grow downwards from the end of the page.
///
/// ```text
///  0  page id          4 bytes, little-endian
///  4  deleted flag     1 byte
///  5  lsn              4 bytes
///  9  previous page    4 bytes
/// 13  next page        4 bytes
/// 17  free space ptr   4 bytes
/// 21  tuple count      4 bytes
/// 25  slot directory   8 bytes a slot: offset, size
/// ```
pub struct TablePage {
    page: Page,
    status: ClockStatus,
}

impl View for TablePage {
    type V = TablePageView;

    /// What the bytes of the page hold.
    open spec fn view(&self) -> TablePageView {
        decode(self.image())
    }
}

impl TablePage {
    /// The bytes of the page.
    pub closed spec fn image(&self) -> Seq<u8> {
        self.page@
    }

    /// The replacement flags of the page.
    pub closed spec fn spec_status(&self) -> ClockStatus {
        self.status
    }

    /// The identifier that the page was created under.
    pub closed spec fn spec_page_id(&self) -> u32 {
        self.page.id()
    }

    /// Whether the page obeys the layout rules and carries its own identifier
    /// in its first bytes.
    pub open spec fn wf(&self) -> bool {
        &&& self.image().len() == PAGE_SIZE
        &&& self@.page_id == self.spec_page_id()
        &&& self@.wf()
    }

    /// What does not change when only the bytes of the page are written.
    closed spec fn same_frame(&self, other: &TablePage) -> bool {
        &&& self.status == other.status
        &&& self.page.id() == other.page.id()
        &&& self.page.pins() == other.page.pins()
        &&& self.page.dirty() == other.page.dirty()
    }

    fn get_free_space_pointer(&self) -> (r: u32)
        ensures
            r == u32_le(self.image(), OFFSET_FREE_SPACE as int),
    {
        self.page.get_u32(OFFSET_FREE_SPACE)
    }

    fn set_free_space_pointer(&mut self, free_space_pointer: u32)
        ensures
            final(self).same_frame(old(self)),
            stored(
                old(self).image(),
                final(self).image(),
                OFFSET_FREE_SPACE as int,
                free_space_pointer,
            ),
    {
        self.page.put_u32(OFFSET_FREE_SPACE, free_space_pointer);
    }

    fn get_tuple_count(&self) -> (r: u32)
        ensures
            r == u32_le(self.image(), OFFSET_TUPLE_COUNT as int),
    {
        self.page.get_u32(OFFSET_TUPLE_COUNT)
    }

    fn set_tuple_count(&mut self, tuple_count: u32)
        ensures
            final(self).same_frame(old(self)),
            stored(
                old(self).image(),
                final(self).image(),
                OFFSET_TUPLE_COUNT as int,
                tuple_count,
            ),
    {
        self.page.put_u32(OFFSET_TUPLE_COUNT, tuple_count);
    }

    fn get_tuple_offset_at_slot(&self, slot_num: u32) -> (r: u32)
        requires
            slot_num < MAX_SLOTS,
        ensures
            r == slot_offset_of(self.image(), slot_num as int),
    {
        self.page.get_u32(OFFSET_TUPLE_OFFSET + SIZE_TUPLE * slot_num as usize)
    }

    fn set_tuple_offset_at_slot(&mut self, slot_num: u32, offset: u32)
        requires
            slot_num < MAX_SLOTS,
        ensures
            final(self).same_frame(old(self)),
            stored(
                old(self).image(),
                final(self).image(),
                OFFSET_TUPLE_OFFSET + SIZE_TUPLE * slot_num,
                offset,
            ),
    {
        self.page.put_u32(OFFSET_TUPLE_OFFSET + SIZE_TUPLE * slot_num as usize, offset);
    }

    fn get_tuple_size(&self, slot_num: u32) -> (r: u32)
        requires
            slot_num < MAX_SLOTS,
        ensures
            r == slot_size_of(self.image(), slot_num as int),
    {
        self.page.get_u32(OFFSET_TUPLE_SIZE + SIZE_TUPLE * slot_num as usize)
    }

    fn set_tuple_size(&mut self, slot_num: u32, size: u32)
        requires
            slot_num < MAX_SLOTS,
        ensures
            final(self).same_frame(old(self)),
            stored(
                old(self).image(),
                final(self).image(),
                OFFSET_TUPLE_SIZE + SIZE_TUPLE * slot_num,
                size,
            ),
    {
        self.page.put_u32(OFFSET_TUPLE_SIZE + SIZE_TUPLE * slot_num as usize, size);
    }

    fn get_free_space_remaining(&self) -> (r: u32)
        requires
            self.wf(),
        ensures
            r == self@.free_space_remaining(),
    {
        let free_space_pointer = self.get_free_space_pointer();
        let tuple_count = self.get_tuple_count();
        free_space_pointer - SIZE_TABLE_PAGE_HEADER as u32 - SIZE_TUPLE as u32 * tuple_count
    }

    /// The lowest free slot, if there is one.
    fn get_free_slot_array(&self) -> (r: Option<u32>)
        requires
            self.wf(),
        ensures
            self@.is_insert_slot(
                match r {
                    Some(k) => k as int,
                    None => self@.slots.len() as int,
                },
            ),
            r matches Some(k) ==> k < self@.slots.len(),
    {
        let tuple_count = self.get_tuple_count();
        let mut i: u32 = 0;
        while i < tuple_count
            invariant
                self.wf(),
                tuple_count == self@.slots.len(),
                i <= tuple_count,
                forall|j: int| 0 <= j < i ==> (#[trigger] self@.slots[j]).occupied(),
            decreases tuple_count - i,
        {
            let tuple_size = self.get_tuple_size(i);
            if tuple_size == 0 {
                return Some(i);
            }
            i += 1;
        }
        None
    }

    /// Whether a size field marks its slot as deleted or free.
    pub fn is_deleted(tuple_size: u32) -> (r: bool)
        ensures
            r == size_is_deleted(tuple_size),
    {
        assert((tuple_size & 0x8000_0000u32) != 0 <==> tuple_size >= 0x8000_0000u32)
            by (bit_vector);
        (tuple_size & DELETE_MASK) != 0 || tuple_size == 0
    }

    /// The size field with the deletion bit set.
    pub fn set_deleted_flag(tuple_size: u32) -> (r: u32)
        ensures
            r == (if tuple_size >= DELETE_MASK {
                tuple_size
            } else {
                (tuple_size + DELETE_MASK) as u32
            }),
    {
        assert((tuple_size | 0x8000_0000u32) == if tuple_size >= 0x8000_0000u32 {
            tuple_size
        } else {
            (tuple_size + 0x8000_0000u32) as u32
        }) by (bit_vector);
        tuple_size | DELETE_MASK
    }

    /// The size field with the deletion bit cleared.
    pub fn unset_deleted_flag(tuple_size: u32) -> (r: u32)
        ensures
            r == size_len(tuple_size),
    {
        assert((tuple_size & !0x8000_0000u32) == if tuple_size >= 0x8000_0000u32 {
            (tuple_size - 0x8000_0000u32) as u32
        } else {
            tuple_size
        }) by (bit_vector);
        tuple_size & !DELETE_MASK
    }

    /// A fresh, empty table page over `data`. The identifier 0 is kept for the
    /// header page and is refused.
    pub fn new(page_id: u32, prev_page_id: Option<u32>, data: [u8; PAGE_SIZE]) -> (r: Result<
        TablePage,
        Error,
    >)
        ensures
            r is Err <==> page_id == 0,
            r is Err ==> r matches Err(Error::Value(_)),
            r matches Ok(p) ==> {
                &&& p.wf()
                &&& p.spec_page_id() == page_id
                &&& p@ == (TablePageView {
                    page_id,
                    prev_page_id: match prev_page_id {
                        Some(id) => id,
                        None => 0,
                    },
                    free_space_pointer: PAGE_SIZE as int,
                    slots: Seq::empty(),
                    ..decode(data@)
                })
                &&& p.spec_status() == (ClockStatus {
                    used: true,
                    edited: false,
                    deleted: false,
                    removed: false,
                })
            },
    {
        if page_id == 0 {
            return Err(value_error("table page id can not set 0!"));
        }
        let page = match Page::new(page_id, data) {
            Ok(page) => page,
            Err(e) => { return Err(e); },
        };
        let mut status = ClockStatus::empty();
        status.used();
        let mut table_page = TablePage { page, status };
        table_page.page.put_u32(0, page_id);
        table_page.set_tuple_count(0);
        table_page.page.put_u32(
            OFFSET_PREV_PAGE_ID,
            match prev_page_id {
                Some(id) => id,
                None => 0,
            },
        );
        table_page.set_free_space_pointer(PAGE_SIZE as u32);
        proof {
            assert(table_page@.slots =~= Seq::<SlotView>::empty());
        }
        Ok(table_page)
    }

    /// The table page that `data` holds, as it was read from disk under
    /// `page_id`. It is an error when the bytes carry another identifier or
    /// break the layout rules: such a page is not taken in.
    pub fn load(page_id: u32, data: [u8; PAGE_SIZE]) -> (r: Result<TablePage, Error>)
        ensures
            r is Ok <==> decode(data@).page_id == page_id && decode(data@).wf(),
            r is Err ==> r matches Err(Error::Value(_)),
            r matches Ok(p) ==> {
                &&& p.wf()
                &&& p.image() == data@
                &&& p.spec_page_id() == page_id
                &&& p.spec_status() == (ClockStatus {
                    used: true,
                    edited: false,
                    deleted: false,
                    removed: false,
                })
            },
    {
        let page = match Page::new(page_id, data) {
            Ok(page) => page,
            Err(e) => { return Err(e); },
        };
        let mut status = ClockStatus::empty();
        status.used();
        let table_page = TablePage { page, status };
        proof {
            lemma_raw_wf(data@);
        }
        if table_page.page.get_u32(0) != page_id {
            return Err(value_error("the page carries another page id"));
        }
        if !table_page.obeys_layout() {
            return Err(value_error("the page breaks the layout of a table page"));
        }
        Ok(table_page)
    }

    /// Whether the numbers on the page obey the layout rules.
    fn obeys_layout(&self) -> (r: bool)
        requires
            self.image().len() == PAGE_SIZE,
        ensures
            r == raw_wf(self.image()),
    {
        let ghost b = self.image();
        if self.page.get_u32(0) == 0 {
            return false;
        }
        let free_space_pointer = self.get_free_space_pointer();
        let tuple_count = self.get_tuple_count();
        if free_space_pointer > PAGE_SIZE as u32 || tuple_count > MAX_SLOTS as u32 {
            return false;
        }
        if SIZE_TABLE_PAGE_HEADER as u32 + SIZE_TUPLE as u32 * tuple_count > free_space_pointer {
            return false;
        }
        let mut i: u32 = 0;
        while i < tuple_count
            invariant
                b == self.image(),
                b.len() == PAGE_SIZE,
                i <= tuple_count == count_of(b) <= MAX_SLOTS,
                free_space_pointer == free_ptr_of(b) <= PAGE_SIZE,
                forall|k: int|
                    0 <= k < i && #[trigger] slot_size_of(b, k) != 0 ==> {
                        &&& size_len(slot_size_of(b, k)) > 0
                        &&& free_ptr_of(b) <= slot_offset_of(b, k)
                        &&& slot_offset_of(b, k) + size_len(slot_size_of(b, k)) <= PAGE_SIZE
                    },
                forall|k: int, l: int|
                    0 <= k < l < i && #[trigger] slot_size_of(b, k) != 0
                        && #[trigger] slot_size_of(b, l) != 0 ==> {
                        ||| slot_offset_of(b, k) + size_len(slot_size_of(b, k)) <= slot_offset_of(
                            b,
                            l,
                        )
                        ||| slot_offset_of(b, l) + size_len(slot_size_of(b, l)) <= slot_offset_of(
                            b,
                            k,
                        )
                    },
            decreases tuple_count - i,
        {
            let size_i = self.get_tuple_size(i);
            if size_i != 0 {
                let len_i = TablePage::unset_deleted_flag(size_i);
                let offset_i = self.get_tuple_offset_at_slot(i);
                if len_i == 0 || offset_i < free_space_pointer || offset_i > PAGE_SIZE as u32
                    || len_i > PAGE_SIZE as u32 - offset_i {
                    return false;
                }
                let mut j: u32 = 0;
                while j < i
                    invariant
                        b == self.image(),
                        b.len() == PAGE_SIZE,
                        j <= i < tuple_count == count_of(b) <= MAX_SLOTS,
                        size_i == slot_size_of(b, i as int),
                        size_i != 0,
                        len_i == size_len(size_i),
                        offset_i == slot_offset_of(b, i as int),
                        offset_i + len_i <= PAGE_SIZE,
                        forall|k: int|
                            0 <= k < i && #[trigger] slot_size_of(b, k) != 0 ==> {
                                &&& size_len(slot_size_of(b, k)) > 0
                                &&& free_ptr_of(b) <= slot_offset_of(b, k)
                                &&& slot_offset_of(b, k) + size_len(slot_size_of(b, k))
                                    <= PAGE_SIZE
                            },
                        forall|k: int|
                            0 <= k < j && #[trigger] slot_size_of(b, k) != 0 ==> {
                                ||| slot_offset_of(b, k) + size_len(slot_size_of(b, k))
                                    <= offset_i
                                ||| offset_i + len_i <= slot_offset_of(b, k)
                            },
                    decreases i - j,
                {
                    let size_j = self.get_tuple_size(j);
                    if size_j != 0 {
                        let len_j = TablePage::unset_deleted_flag(size_j);
                        let offset_j = self.get_tuple_offset_at_slot(j);
                        if !(offset_j + len_j <= offset_i || offset_i + len_i <= offset_j) {
                            return false;
                        }
                    }
                    j += 1;
                }
            }
            i += 1;
        }
        true
    }

    /// Stores the tuple on the page, under the lowest free slot or, when none
    /// is free, under a new one. Returns `false`, and changes nothing, when
    /// the free space cannot take the bytes and one more directory entry. An
    /// empty tuple is an error.
    pub fn insert_tuple(&mut self, tuple: &mut Tuple) -> (r: Result<bool, Error>)
        requires
            old(self).wf(),
        ensures
            final(self).wf(),
            final(self).spec_page_id() == old(self).spec_page_id(),
            r is Err <==> old(tuple)@.data.len() == 0,
            r is Err ==> r matches Err(Error::Value(_)),
            r matches Ok(done) ==> done == (old(tuple)@.data.len() + SIZE_TUPLE <= old(
                self,
            )@.free_space_remaining()),
            !(r matches Ok(true)) ==> {
                &&& final(self).image() == old(self).image()
                &&& final(self).spec_status() == old(self).spec_status()
                &&& final(tuple)@ == old(tuple)@
            },
            r matches Ok(true) ==> {
                &&& final(tuple)@.rid matches Some(rid) && rid.page_id == old(self).spec_page_id()
                    && old(self)@.is_insert_slot(rid.slot_num as int) && final(self)@ == old(
                    self,
                )@.inserted(rid.slot_num as int, old(tuple)@.data)
                &&& final(tuple)@.data == old(tuple)@.data
                &&& final(tuple)@.allocated
                &&& final(self).spec_status() == (ClockStatus {
                    edited: true,
                    ..old(self).spec_status()
                })
            },
    {
        let length = tuple.get_length();
        if length == 0 {
            return Err(value_error("Can't have empty tuple!"));
        }
        let remaining = self.get_free_space_remaining();
        if length > PAGE_SIZE || remaining < (length + SIZE_TUPLE) as u32 {
            return Ok(false);
        }
        let tuple_count = self.get_tuple_count();
        // a free slot is taken before the directory grows
        let slot_num = match self.get_free_slot_array() {
            Some(i) => i,
            None => tuple_count,
        };
        let free_space_pointer = self.get_free_space_pointer() - length as u32;
        let ghost before = self.image();
        self.page.put_bytes(free_space_pointer as usize, tuple.get_data(), length);
        self.set_free_space_pointer(free_space_pointer);
        self.set_tuple_offset_at_slot(slot_num, free_space_pointer);
        self.set_tuple_size(slot_num, length as u32);
        if slot_num == tuple_count {
            self.set_tuple_count(slot_num + 1);
        }
        let rid = RID::new(*self.page.get_page_id(), slot_num);
        proof {
            let after = self.image();
            assert(tuple@.data.subrange(0, length as int) =~= tuple@.data);
            assert(after.subrange(free_ptr_of(after), free_ptr_of(before)) =~= tuple@.data);
            lemma_inserted(before, after, slot_num as int, tuple@.data);
        }
        tuple.place(rid);
        self.status.edited();
        Ok(true)
    }

    /// The tuple under `rid`, copied out of the page, or nothing where the
    /// slot does not exist, is free or is marked deleted. An identifier of
    /// another page is an error.
    pub fn get_tuple(&mut self, rid: &RID) -> (r: Result<Option<Tuple>, Error>)
        requires
            old(self).wf(),
        ensures
            final(self).wf(),
            final(self).image() == old(self).image(),
            final(self).spec_page_id() == old(self).spec_page_id(),
            r is Err <==> rid.page_id != old(self).spec_page_id(),
            r is Err ==> r matches Err(Error::Value(_)),
            r matches Ok(found) ==> {
                &&& found is Some <==> old(self)@.is_live(rid.slot_num as int)
                &&& found matches Some(t) ==> t@ == (TupleView {
                    data: old(self)@.slots[rid.slot_num as int].data(),
                    rid: Some(*rid),
                    allocated: true,
                })
            },
            final(self).spec_status() == (if r matches Ok(Some(_)) {
                ClockStatus { used: true, ..old(self).spec_status() }
            } else {
                old(self).spec_status()
            }),
    {
        let page_id = *self.page.get_page_id();
        if page_id != *rid.get_page_id() {
            return Err(value_error("the page id is not include this page"));
        }
        let slot_num = *rid.get_slot_num();
        if slot_num >= self.get_tuple_count() {
            return Ok(None);
        }
        proof {
            lemma_occupied_slot(self.image(), slot_num as int);
        }
        let tuple_size = self.get_tuple_size(slot_num);
        if TablePage::is_deleted(tuple_size) {
            return Ok(None);
        }
        let tuple_offset = self.get_tuple_offset_at_slot(slot_num);
        let tuple_data = self.page.get_bytes(tuple_offset as usize, tuple_size as usize);
        let tuple_rid = RID::new(page_id, slot_num);
        let mut tuple = Tuple::from_data(tuple_data);
        tuple.place(tuple_rid);
        self.status.used();
        Ok(Some(tuple))
    }

    /// Marks the tuple under `rid` as deleted; its bytes stay on the page.
    /// Returns `false`, and changes nothing, where the slot does not exist, is
    /// free or is marked already.
    pub fn mark_delete(&mut self, rid: &RID) -> (r: Result<bool, Error>)
        requires
            old(self).wf(),
        ensures
            final(self).wf(),
            final(self).spec_page_id() == old(self).spec_page_id(),
            r matches Ok(done) && done == old(self)@.is_live(rid.slot_num as int),
            r matches Ok(true) ==> {
                &&& final(self)@ == old(self)@.marked(rid.slot_num as int)
                &&& final(self).spec_status() == (ClockStatus {
                    edited: true,
                    ..old(self).spec_status()
                })
            },
            r matches Ok(false) ==> {
                &&& final(self).image() == old(self).image()
                &&& final(self).spec_status() == old(self).spec_status()
            },
    {
        let slot_num = *rid.get_slot_num();
        if self.get_tuple_count() <= slot_num {
            return Ok(false);
        }
        proof {
            lemma_occupied_slot(self.image(), slot_num as int);
        }
        let tuple_size = self.get_tuple_size(slot_num);
        if TablePage::is_deleted(tuple_size) {
            return Ok(false);
        }
        let ghost before = self.image();
        let marked = TablePage::set_deleted_flag(tuple_size);
        self.set_tuple_size(slot_num, marked);
        proof {
            lemma_remarked(before, self.image(), slot_num as int, marked);
        }
        self.status.edited();
        Ok(true)
    }

    /// Takes the deletion mark off the tuple under `rid`, if it has one. A
    /// slot that does not exist is an error.
    pub fn rollback_delete(&mut self, rid: &RID) -> (r: Result<(), Error>)
        requires
            old(self).wf(),
        ensures
            final(self).wf(),
            final(self).spec_page_id() == old(self).spec_page_id(),
            r is Ok <==> rid.slot_num < old(self)@.slots.len(),
            r is Ok ==> {
                &&& final(self)@ == old(self)@.restored(rid.slot_num as int)
                &&& final(self).spec_status() == (ClockStatus {
                    edited: true,
                    ..old(self).spec_status()
                })
            },
            r is Err ==> {
                &&& r matches Err(Error::Value(_))
                &&& final(self).image() == old(self).image()
                &&& final(self).spec_status() == old(self).spec_status()
            },
    {
        let slot_num = *rid.get_slot_num();
        if slot_num >= self.get_tuple_count() {
            return Err(value_error("we can't have more slots than tuples."));
        }
        proof {
            lemma_occupied_slot(self.image(), slot_num as int);
        }
        let tuple_size = self.get_tuple_size(slot_num);
        if TablePage::is_deleted(tuple_size) && tuple_size != 0 {
            let ghost before = self.image();
            let restored = TablePage::unset_deleted_flag(tuple_size);
            self.set_tuple_size(slot_num, restored);
            proof {
                lemma_remarked(before, self.image(), slot_num as int, restored);
            }
        } else {
            assert(self@.slots.update(slot_num as int, self@.slots[slot_num as int])
                =~= self@.slots);
        }
        self.status.edited();
        Ok(())
    }

    /// Rewrites the offset field of every tuple stored below `tuple_offset`
    /// after the tuple that began there has gone from `old_size` to
    /// `new_size` bytes. Free slots have no tuple and keep their field.
    fn shift_offsets_below(
        &mut self,
        tuple_count: u32,
        tuple_offset: u32,
        old_size: u32,
        new_size: u32,
    )
        requires
            old(self).image().len() == PAGE_SIZE,
            tuple_count == count_of(old(self).image()),
            tuple_count <= MAX_SLOTS,
            tuple_offset <= PAGE_SIZE,
            old_size <= PAGE_SIZE,
            new_size <= PAGE_SIZE,
            forall|i: int|
                0 <= i < tuple_count && slot_size_of(old(self).image(), i) != 0 && (
                #[trigger] slot_offset_of(old(self).image(), i)) < tuple_offset ==> new_size
                    <= slot_offset_of(old(self).image(), i) + old_size,
        ensures
            final(self).same_frame(old(self)),
            final(self).image().len() == PAGE_SIZE,
            same_links(old(self).image(), final(self).image()),
            count_of(final(self).image()) == count_of(old(self).image()),
            free_ptr_of(final(self).image()) == free_ptr_of(old(self).image()),
            forall|i: int|
                0 <= i < tuple_count ==> #[trigger] slot_size_of(final(self).image(), i)
                    == slot_size_of(old(self).image(), i),
            forall|i: int|
                0 <= i < tuple_count ==> #[trigger] slot_offset_of(final(self).image(), i)
                    == shifted_offset(
                    old(self).image(),
                    i,
                    tuple_offset as int,
                    old_size - new_size,
                ),
            forall|j: int|
                SIZE_TABLE_PAGE_HEADER + SIZE_TUPLE * tuple_count <= j < PAGE_SIZE
                    ==> #[trigger] final(self).image()[j] == old(self).image()[j],
    {
        let mut i: u32 = 0;
        while i < tuple_count
            invariant
                i <= tuple_count,
                tuple_count <= MAX_SLOTS,
                tuple_offset <= PAGE_SIZE,
                old_size <= PAGE_SIZE,
                new_size <= PAGE_SIZE,
                self.same_frame(old(self)),
                self.image().len() == PAGE_SIZE,
                old(self).image().len() == PAGE_SIZE,
                same_links(old(self).image(), self.image()),
                count_of(self.image()) == count_of(old(self).image()),
                free_ptr_of(self.image()) == free_ptr_of(old(self).image()),
                forall|j: int|
                    0 <= j < tuple_count && slot_size_of(old(self).image(), j) != 0 && (
                    #[trigger] slot_offset_of(old(self).image(), j)) < tuple_offset ==> new_size
                        <= slot_offset_of(old(self).image(), j) + old_size,
                forall|j: int|
                    0 <= j < tuple_count ==> #[trigger] slot_size_of(self.image(), j)
                        == slot_size_of(old(self).image(), j),
                forall|j: int|
                    0 <= j < i ==> #[trigger] slot_offset_of(self.image(), j) == shifted_offset(
                        old(self).image(),
                        j,
                        tuple_offset as int,
                        old_size - new_size,
                    ),
                forall|j: int|
                    i <= j < tuple_count ==> #[trigger] slot_offset_of(self.image(), j)
                        == slot_offset_of(old(self).image(), j),
                forall|j: int|
                    SIZE_TABLE_PAGE_HEADER + SIZE_TUPLE * tuple_count <= j < PAGE_SIZE
                        ==> #[trigger] self.image()[j] == old(self).image()[j],
            decreases tuple_count - i,
        {
            let tuple_size_i = self.get_tuple_size(i);
            let tuple_offset_i = self.get_tuple_offset_at_slot(i);
            if tuple_size_i != 0 && tuple_offset_i < tuple_offset {
                let ghost before = self.image();
                self.set_tuple_offset_at_slot(i, tuple_offset_i + old_size - new_size);
                proof {
                    let now = self.image();
                    assert forall|j: int| 0 <= j < tuple_count implies #[trigger] slot_size_of(
                        now,
                        j,
                    ) == slot_size_of(before, j) by {}
                    assert forall|j: int|
                        0 <= j < tuple_count && j != i implies #[trigger] slot_offset_of(now, j)
                        == slot_offset_of(before, j) by {}
                }
            }
            i += 1;
        }
    }

    /// Removes for good the tuple under `rid`, which must be marked deleted:
    /// the slot becomes free, the tuples stored below move up over the bytes
    /// of the tuple, and the free space grows by its length. It is an error
    /// when `rid` names another page, when the page as a whole is marked
    /// deleted, or when the slot holds no tuple that is marked deleted.
    pub fn apply_delete(&mut self, rid: &RID) -> (r: Result<(), Error>)
        requires
            old(self).wf(),
        ensures
            final(self).wf(),
            final(self).spec_page_id() == old(self).spec_page_id(),
            r is Ok <==> rid.page_id == old(self).spec_page_id() && !old(self)@.deleted && old(
                self,
            )@.is_tombstoned(rid.slot_num as int),
            r is Ok ==> {
                &&& final(self)@ == old(self)@.removed(rid.slot_num as int)
                &&& slot_offset_of(final(self).image(), rid.slot_num as int) == 0
                &&& final(self).spec_status() == (ClockStatus {
                    edited: true,
                    ..old(self).spec_status()
                })
            },
            r is Err ==> {
                &&& r matches Err(Error::Value(_))
                &&& final(self).image() == old(self).image()
                &&& final(self).spec_status() == old(self).spec_status()
            },
    {
        let slot_num = *rid.get_slot_num();
        if *self.page.get_page_id() != *rid.get_page_id() {
            return Err(value_error("the tuple is not storaged in this page"));
        }
        if self.page.get_byte(OFFSET_DELETED) != 0 {
            return Err(value_error("the page is deleted"));
        }
        let tuple_count = self.get_tuple_count();
        if slot_num >= tuple_count {
            return Err(value_error("Cannot have more slots than tuples."));
        }
        proof {
            lemma_occupied_slot(self.image(), slot_num as int);
        }
        let tuple_size = self.get_tuple_size(slot_num);
        if !TablePage::is_deleted(tuple_size) || tuple_size == 0 {
            return Err(value_error("The tuple was not deleted."));
        }
        let tuple_size = TablePage::unset_deleted_flag(tuple_size);
        let tuple_offset = self.get_tuple_offset_at_slot(slot_num);
        let free_space_pointer = self.get_free_space_pointer();
        let ghost before = self.image();

        // remove slot
        self.set_tuple_size(slot_num, 0);
        self.set_tuple_offset_at_slot(slot_num, 0);
        self.set_free_space_pointer(free_space_pointer + tuple_size);

        // move data
        self.page.copy_within(
            free_space_pointer as usize,
            tuple_offset as usize,
            (free_space_pointer + tuple_size) as usize,
        );
        let ghost moved = self.image();
        proof {
            assert forall|i: int| 0 <= i < tuple_count && i != slot_num implies #[trigger] same_entry(
                before,
                moved,
                i,
            ) by {}
            assert(slot_size_of(moved, slot_num as int) == 0);
            assert forall|j: int|
                0 <= j && free_space_pointer + tuple_size <= j < tuple_offset
                    + tuple_size implies #[trigger] moved[j] == before[j - tuple_size] by {}
        }

        // update slots
        self.shift_offsets_below(tuple_count, tuple_offset, tuple_size, 0);
        self.status.edited();
        proof {
            let after = self.image();
            assert forall|i: int| 0 <= i < tuple_count && i != slot_num implies #[trigger] slot_size_of(
                after,
                i,
            ) == slot_size_of(before, i) by {
                assert(same_entry(before, moved, i));
            }
            assert forall|i: int|
                0 <= i < tuple_count && i != slot_num implies #[trigger] slot_offset_of(after, i)
                == shifted_offset(before, i, tuple_offset as int, tuple_size as int) by {
                assert(same_entry(before, moved, i));
            }
            assert(slot_size_of(after, slot_num as int) == 0);
            lemma_repacked(before, after, slot_num as int, tuple_size as int, SlotView::Free);
        }
        Ok(())
    }

    /// Replaces the bytes of the tuple that `tuple` names by its identifier.
    /// The new bytes end where the old ones ended; the tuples stored below
    /// move by the difference of the two lengths. It is an error when the
    /// tuple has no identifier or no bytes, when its slot does not exist, is
    /// free or is marked deleted, or when the new bytes do not fit into the
    /// free space and the room of the old ones.
    pub fn update_tuple(&mut self, tuple: &Tuple) -> (r: Result<(), Error>)
        requires
            old(self).wf(),
        ensures
            final(self).wf(),
            final(self).spec_page_id() == old(self).spec_page_id(),
            r is Ok <==> (tuple@.rid matches Some(rid) && tuple@.data.len() > 0 && old(
                self,
            )@.is_live(rid.slot_num as int) && tuple@.data.len() <= old(
                self,
            )@.free_space_remaining() + old(self)@.slots[rid.slot_num as int].data().len()),
            r is Ok ==> {
                &&& final(self)@ == old(self)@.updated(
                    tuple@.rid.unwrap().slot_num as int,
                    tuple@.data,
                )
                &&& final(self).spec_status() == (ClockStatus {
                    edited: true,
                    ..old(self).spec_status()
                })
            },
            r is Err ==> {
                &&& r matches Err(Error::Value(_))
                &&& final(self).image() == old(self).image()
                &&& final(self).spec_status() == old(self).spec_status()
            },
    {
        let rid = match tuple.get_rid() {
            Some(rid) => *rid,
            None => {
                return Err(value_error("The tuple has not rid when update!!"));
            },
        };
        let new_tuple_size = tuple.get_length();
        let slot_num = *rid.get_slot_num();

        if new_tuple_size == 0 {
            return Err(value_error("Can't have empty tuple!"));
        }
        let tuple_count = self.get_tuple_count();
        if slot_num >= tuple_count {
            return Err(value_error("Slot num has out of range"));
        }
        proof {
            lemma_occupied_slot(self.image(), slot_num as int);
        }
        let tuple_size = self.get_tuple_size(slot_num);
        if TablePage::is_deleted(tuple_size) {
            return Err(value_error("this tuple was mark deleted"));
        }
        // the free space and the old tuple together must hold the new tuple
        if new_tuple_size > PAGE_SIZE || self.get_free_space_remaining() + tuple_size
            < new_tuple_size as u32 {
            return Err(value_error("there is not enough space on this page"));
        }
        let new_size = new_tuple_size as u32;
        let tuple_offset = self.get_tuple_offset_at_slot(slot_num);
        let free_space_pointer = self.get_free_space_pointer();
        let new_free_space_pointer = free_space_pointer + tuple_size - new_size;
        let new_tuple_offset = tuple_offset + tuple_size - new_size;
        let ghost before = self.image();
        let ghost delta = tuple_size - new_size;

        // move the tuples stored below, to make room for the new bytes
        self.page.copy_within(
            free_space_pointer as usize,
            tuple_offset as usize,
            new_free_space_pointer as usize,
        );
        self.set_free_space_pointer(new_free_space_pointer);
        self.page.put_bytes(new_tuple_offset as usize, tuple.get_data(), new_tuple_size);
        let ghost moved = self.image();
        proof {
            assert forall|i: int| 0 <= i < tuple_count implies #[trigger] same_entry(
                before,
                moved,
                i,
            ) by {}
            assert forall|i: int|
                0 <= i < tuple_count && slot_size_of(moved, i) != 0 && (#[trigger] slot_offset_of(
                    moved,
                    i,
                )) < tuple_offset implies new_size <= slot_offset_of(moved, i) + tuple_size by {
                assert(same_entry(before, moved, i));
                lemma_occupied_slot(before, i);
            }
            assert forall|j: int|
                0 <= j && free_space_pointer + delta <= j < tuple_offset
                    + delta implies #[trigger] moved[j] == before[j - delta] by {}
        }

        // update all tuple offsets
        self.shift_offsets_below(tuple_count, tuple_offset, tuple_size, new_size);
        let ghost shifted = self.image();

        // set meta data
        self.set_tuple_offset_at_slot(slot_num, new_tuple_offset);
        self.set_tuple_size(slot_num, new_size);
        self.status.edited();
        proof {
            let after = self.image();
            let slot = SlotView::Live { offset: new_tuple_offset as int, data: tuple@.data };
            assert forall|i: int| 0 <= i < tuple_count && i != slot_num implies #[trigger] slot_size_of(
                after,
                i,
            ) == slot_size_of(before, i) by {
                assert(same_entry(before, moved, i));
                assert(slot_size_of(shifted, i) == slot_size_of(moved, i));
            }
            assert forall|i: int|
                0 <= i < tuple_count && i != slot_num implies #[trigger] slot_offset_of(after, i)
                == shifted_offset(before, i, tuple_offset as int, delta) by {
                assert(same_entry(before, moved, i));
                assert(slot_offset_of(shifted, i) == shifted_offset(
                    moved,
                    i,
                    tuple_offset as int,
                    delta,
                ));
            }
            assert(tuple@.data.subrange(0, new_tuple_size as int) =~= tuple@.data);
            assert(slot_data_of(after, slot_num as int) =~= tuple@.data);
            assert(slot_of(after, slot_num as int) == slot);
            lemma_repacked(before, after, slot_num as int, delta, slot);
        }
        Ok(())
    }

    /// Stores `value` in the header field at `at`, which holds the identifier
    /// of the previous or of the next page.
    fn set_link(&mut self, at: usize, value: u32)
        requires
            old(self).wf(),
            at == OFFSET_PREV_PAGE_ID || at == OFFSET_NEXT_PAGE_ID,
        ensures
            final(self).wf(),
            final(self).same_frame(old(self)),
            final(self).spec_page_id() == old(self).spec_page_id(),
            at == OFFSET_PREV_PAGE_ID ==> final(self)@ == (TablePageView {
                prev_page_id: value,
                ..old(self)@
            }),
            at == OFFSET_NEXT_PAGE_ID ==> final(self)@ == (TablePageView {
                next_page_id: value,
                ..old(self)@
            }),
    {
        let ghost before = self.image();
        self.page.put_u32(at, value);
        proof {
            let after = self.image();
            assert forall|i: int| 0 <= i < count_of(before) implies #[trigger] same_entry(
                before,
                after,
                i,
            ) by {}
            lemma_same_slots(before, after);
        }
    }

    /// The log sequence number of the page.
    pub fn get_lsn(&mut self) -> (r: Result<u32, Error>)
        ensures
            final(self).image() == old(self).image(),
            final(self).spec_page_id() == old(self).spec_page_id(),
            final(self).spec_status() == (ClockStatus { used: true, ..old(self).spec_status() }),
            r matches Ok(v) && v == old(self)@.lsn,
    {
        self.status.used();
        Ok(self.page.get_u32(OFFSET_LSN))
    }

    /// The identifier that the bytes of the page carry.
    pub fn get_table_page_id(&mut self) -> (r: Result<u32, Error>)
        ensures
            final(self).image() == old(self).image(),
            final(self).spec_page_id() == old(self).spec_page_id(),
            final(self).spec_status() == (ClockStatus { used: true, ..old(self).spec_status() }),
            r matches Ok(v) && v == old(self)@.page_id,
    {
        self.status.used();
        Ok(self.page.get_u32(0))
    }

    /// The identifier of the page before this one in its table.
    pub fn get_prev_page_id(&mut self) -> (r: Result<u32, Error>)
        ensures
            final(self).image() == old(self).image(),
            final(self).spec_page_id() == old(self).spec_page_id(),
            final(self).spec_status() == (ClockStatus { used: true, ..old(self).spec_status() }),
            r matches Ok(v) && v == old(self)@.prev_page_id,
    {
        self.status.used();
        Ok(self.page.get_u32(OFFSET_PREV_PAGE_ID))
    }

    /// The identifier of the page after this one in its table.
    pub fn get_next_page_id(&mut self) -> (r: Result<u32, Error>)
        ensures
            final(self).image() == old(self).image(),
            final(self).spec_page_id() == old(self).spec_page_id(),
            final(self).spec_status() == (ClockStatus { used: true, ..old(self).spec_status() }),
            r matches Ok(v) && v == old(self)@.next_page_id,
    {
        self.status.used();
        Ok(self.page.get_u32(OFFSET_NEXT_PAGE_ID))
    }

    /// Sets the identifier of the page before this one in its table.
    pub fn set_prev_page_id(&mut self, prev_page_id: u32) -> (r: Result<(), Error>)
        requires
            old(self).wf(),
        ensures
            final(self).wf(),
            final(self).spec_page_id() == old(self).spec_page_id(),
            final(self).spec_status() == (ClockStatus { edited: true, ..old(self).spec_status() }),
            final(self)@ == (TablePageView { prev_page_id, ..old(self)@ }),
            r is Ok,
    {
        self.status.edited();
        self.set_link(OFFSET_PREV_PAGE_ID, prev_page_id);
        Ok(())
    }

    /// Sets the identifier of the page after this one in its table.
    pub fn set_next_page_id(&mut self, next_page_id: u32) -> (r: Result<(), Error>)
        requires
            old(self).wf(),
        ensures
            final(self).wf(),
            final(self).spec_page_id() == old(self).spec_page_id(),
            final(self).spec_status() == (ClockStatus { edited: true, ..old(self).spec_status() }),
            final(self)@ == (TablePageView { next_page_id, ..old(self)@ }),
            r is Ok,
    {
        self.status.edited();
        self.set_link(OFFSET_NEXT_PAGE_ID, next_page_id);
        Ok(())
    }

    /// Whether the page as a whole is marked deleted.
    pub fn page_is_deleted(&self) -> (r: Result<bool, Error>)
        ensures
            r matches Ok(v) && v == self@.deleted,
    {
        Ok(self.page.get_byte(OFFSET_DELETED) != 0)
    }

    /// Marks the page as a whole deleted. Its tuples stay where they are.
    pub fn delete_page(&mut self) -> (r: Result<bool, Error>)
        requires
            old(self).wf(),
        ensures
            final(self).wf(),
            final(self).spec_page_id() == old(self).spec_page_id(),
            r matches Ok(true),
            final(self)@ == (TablePageView { deleted: true, ..old(self)@ }),
            old(self)@.deleted ==> final(self).image() == old(self).image(),
            old(self)@.deleted ==> final(self).spec_status() == old(self).spec_status(),
            !old(self)@.deleted ==> final(self).spec_status() == (ClockStatus {
                edited: true,
                ..old(self).spec_status()
            }),
    {
        if self.page.get_byte(OFFSET_DELETED) != 0 {
            return Ok(true);
        }
        let ghost before = self.image();
        self.page.put_byte(OFFSET_DELETED, 1);
        self.status.edited();
        proof {
            let after = self.image();
            assert forall|i: int| 0 <= i < count_of(before) implies #[trigger] same_entry(
                before,
                after,
                i,
            ) by {}
            lemma_same_slots(before, after);
        }
        Ok(true)
    }

    /// The identifier of the first tuple of the page that is not deleted, if
    /// there is one.
    pub fn get_first_tuple_rid(&mut self) -> (r: Result<Option<RID>, Error>)
        requires
            old(self).wf(),
        ensures
            final(self).wf(),
            final(self).image() == old(self).image(),
            final(self).spec_page_id() == old(self).spec_page_id(),
            r matches Ok(found) && match found {
                Some(rid) => rid.page_id == old(self).spec_page_id()
                    && old(self)@.is_first_live_from(0, rid.slot_num as int),
                None => old(self)@.none_live_from(0),
            },
            final(self).spec_status() == (if r matches Ok(Some(_)) {
                ClockStatus { used: true, ..old(self).spec_status() }
            } else {
                old(self).spec_status()
            }),
    {
        match self.first_live_from(0) {
            Some(slot_num) => {
                let rid = RID::new(*self.page.get_page_id(), slot_num);
                self.status.used();
                Ok(Some(rid))
            },
            None => Ok(None),
        }
    }

    /// The identifier of the first tuple behind `cur_rid` that is not
    /// deleted, if there is one. An identifier of another page is an error.
    pub fn get_next_tuple_rid(&mut self, cur_rid: &RID) -> (r: Result<Option<RID>, Error>)
        requires
            old(self).wf(),
        ensures
            final(self).wf(),
            final(self).image() == old(self).image(),
            final(self).spec_page_id() == old(self).spec_page_id(),
            r is Err <==> cur_rid.page_id != old(self).spec_page_id(),
            r is Err ==> r matches Err(Error::Value(_)),
            r matches Ok(found) ==> match found {
                Some(rid) => rid.page_id == old(self).spec_page_id()
                    && old(self)@.is_first_live_from(cur_rid.slot_num + 1, rid.slot_num as int),
                None => old(self)@.none_live_from(cur_rid.slot_num + 1),
            },
            final(self).spec_status() == (if r matches Ok(Some(_)) {
                ClockStatus { used: true, ..old(self).spec_status() }
            } else {
                old(self).spec_status()
            }),
    {
        let page_id = *self.page.get_page_id();
        if page_id != *cur_rid.get_page_id() {
            return Err(value_error("this page id was not equals page_id in this cur_rid"));
        }
        let slot_num = *cur_rid.get_slot_num();
        if slot_num >= self.get_tuple_count() {
            return Ok(None);
        }
        match self.first_live_from(slot_num + 1) {
            Some(next) => {
                let rid = RID::new(page_id, next);
                self.status.used();
                Ok(Some(rid))
            },
            None => Ok(None),
        }
    }

    /// The first slot at or after `from` whose tuple is not deleted.
    fn first_live_from(&self, from: u32) -> (r: Option<u32>)
        requires
            self.wf(),
        ensures
            match r {
                Some(k) => self@.is_first_live_from(from as int, k as int),
                None => self@.none_live_from(from as int),
            },
    {
        let tuple_count = self.get_tuple_count();
        let mut i: u32 = from;
        while i < tuple_count
            invariant
                self.wf(),
                tuple_count == self@.slots.len(),
                from <= i,
                forall|j: int| from <= j < i ==> !self@.is_live(j),
            decreases tuple_count - i,
        {
            proof {
                lemma_occupied_slot(self.image(), i as int);
            }
            let tuple_size = self.get_tuple_size(i);
            if !TablePage::is_deleted(tuple_size) {
                return Some(i);
            }
            i += 1;
        }
        None
    }

    /// The page with other replacement flags.
    pub closed spec fn with_status(self, status: ClockStatus) -> TablePage {
        TablePage { page: self.page, status }
    }

    /// Other replacement flags leave the bytes of a page, and with them all
    /// that the page holds, as they are.
    pub proof fn lemma_with_status(self, status: ClockStatus)
        ensures
            self.with_status(status).image() == self.image(),
            self.with_status(status).spec_page_id() == self.spec_page_id(),
            self.with_status(status).spec_status() == status,
            self.with_status(status).wf() == self.wf(),
            self.with_status(self.spec_status()) == self,
    {
    }

    /// The replacement flags of the page, for the replacer to change.
    pub fn get_status_mut(&mut self) -> (r: &mut ClockStatus)
        ensures
            *r == old(self).spec_status(),
            *final(self) == old(self).with_status(*final(r)),
            final(self).spec_status() == *final(r),
            final(self).image() == old(self).image(),
            final(self).spec_page_id() == old(self).spec_page_id(),
    {
        &mut self.status
    }

    /// The replacement flags of the page.
    pub fn get_status(&self) -> (r: ClockStatus)
        ensures
            r == self.spec_status(),
    {
        self.status
    }

    /// The identifier that the page was created under.
    pub fn get_page_id(&self) -> (r: &u32)
        ensures
            *r == self.spec_page_id(),
    {
        self.page.get_page_id()
    }

    /// The bytes of the page, as they go to disk.
    pub fn get_data(&self) -> (r: &[u8])
        ensures
            r@ == self.image(),
            r@.len() == PAGE_SIZE,
    {
        self.page.as_bytes()
    }
}

} // verus!
