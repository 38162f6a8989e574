use crate::clock_replacer::{
    dirty_of, is_resident_at, is_victim, levels_of, not_resident, ready_to_evict, ClockReplacer,
    ClockStatus, WriteBack,
};
use crate::error::Error;
use crate::header_page::{catalog_of, catalog_wf, HeaderPage, RecordView};
use crate::page::PAGE_SIZE;
use crate::table_layout::{decode, TablePageView};
use crate::table_page::TablePage;
use vstd::prelude::*;

verus! {

/// The page cache of the engine: the header page and a bounded set of table
/// pages. It owns no file. Its caller reads the disk and hands the bytes in,
/// and writes to disk what the pool hands out.
pub struct BufferPoolManager {
    header_page: HeaderPage,
    clock_replacer: ClockReplacer,
}

/// What the pool did with a request for a page.
pub struct Admission {
    /// Where the page stands in the pool; nothing, when there is no such
    /// page.
    pub handle: Option<usize>,
    /// The page that went to make room, if its bytes have to be written to
    /// disk.
    pub write_back: Option<WriteBack>,
}

/// What a write-back carries: the identifier of a page and its bytes.
pub open spec fn write_back_view(w: Option<WriteBack>) -> Option<(u32, Seq<u8>)> {
    match w {
        Some(w) => Some(w@),
        None => None,
    }
}

/// The page that goes when a page is let in at position `at`: none while
/// there is room.
pub open spec fn gone_at(before: Seq<TablePage>, capacity: int, at: int) -> Option<TablePage> {
    if before.len() < capacity {
        None
    } else {
        Some(ready_to_evict(before)[at])
    }
}

/// What has to be written to disk of a page that has gone: its bytes, if
/// they have changed since they were read.
pub open spec fn owed_to_disk(gone: Option<TablePage>) -> Option<(u32, Seq<u8>)> {
    match gone {
        Some(page) => if page.spec_status().edited {
            Some((page.spec_page_id(), page.image()))
        } else {
            None
        },
        None => None,
    }
}

/// Whether `after` is `before` with `page` let in at position `at`: behind
/// the others while there is room, and else in the place of the page that
/// the replacement rule picks.
pub open spec fn admitted(
    before: Seq<TablePage>,
    capacity: int,
    page: TablePage,
    after: Seq<TablePage>,
    at: int,
) -> bool {
    if before.len() < capacity {
        at == before.len() && after == before.push(page)
    } else {
        is_victim(levels_of(ready_to_evict(before)), at) && after == ready_to_evict(before).update(
            at,
            page,
        )
    }
}

/// What a page is like when it has just been taken into the pool: accessed,
/// and not changed.
pub open spec fn fresh_status() -> ClockStatus {
    ClockStatus { used: true, edited: false, deleted: false, removed: false }
}

/// The identifier of the page before `page_id` in the file, as a new page
/// records it.
pub open spec fn prev_of(page_id: u32) -> u32 {
    if page_id > 1 {
        (page_id - 1) as u32
    } else {
        0
    }
}

/// What a fetch of the page `page_id` makes of the pool and gives back,
/// where it does not fail.
pub open spec fn fetched(
    before: Seq<TablePage>,
    capacity: int,
    page_id: u32,
    disk: Option<[u8; PAGE_SIZE]>,
    after: Seq<TablePage>,
    a: Admission,
) -> bool {
    if !not_resident(before, page_id) {
        // a hit: the pool stays as it is
        &&& a.handle matches Some(h) && is_resident_at(before, page_id, h as int)
        &&& a.write_back is None
        &&& after == before
    } else {
        match disk {
            // a miss on disk too: there is no such page
            None => {
                &&& a.handle is None
                &&& a.write_back is None
                &&& after == before
            },
            // the page comes in as the disk holds it
            Some(bytes) => {
                &&& a.handle matches Some(h) && {
                    let page = after[h as int];
                    &&& admitted(before, capacity, page, after, h as int)
                    &&& write_back_view(a.write_back) == owed_to_disk(
                        gone_at(before, capacity, h as int),
                    )
                    &&& page.image() == bytes@
                    &&& page.spec_page_id() == page_id
                    &&& page.spec_status() == fresh_status()
                }
            },
        }
    }
}

/// What the making of the page `page_id` makes of the pool and gives back,
/// where it does not fail.
pub open spec fn created(
    before: Seq<TablePage>,
    capacity: int,
    page_id: u32,
    on_disk: bool,
    after: Seq<TablePage>,
    a: Admission,
) -> bool {
    if on_disk || !not_resident(before, page_id) {
        // a collision: no page is made
        &&& a.handle is None
        &&& a.write_back is None
        &&& after == before
    } else {
        &&& a.handle matches Some(h) && {
            let page = after[h as int];
            &&& admitted(before, capacity, page, after, h as int)
            &&& write_back_view(a.write_back) == owed_to_disk(gone_at(before, capacity, h as int))
            &&& page.spec_page_id() == page_id
            &&& page.spec_status() == fresh_status()
            &&& page@ == (TablePageView {
                page_id,
                deleted: false,
                lsn: 0,
                prev_page_id: prev_of(page_id),
                next_page_id: 0,
                free_space_pointer: PAGE_SIZE as int,
                slots: Seq::empty(),
            })
        }
    }
}

/// What the deletion of the page `page_id` makes of the pool and gives back,
/// where it does not fail: what a fetch makes of it, with the page marked
/// as deleted and as changed.
pub open spec fn deleted(
    before: Seq<TablePage>,
    capacity: int,
    page_id: u32,
    disk: Option<[u8; PAGE_SIZE]>,
    after: Seq<TablePage>,
    a: Admission,
) -> bool {
    if !not_resident(before, page_id) {
        &&& a.handle matches Some(h) && is_resident_at(before, page_id, h as int) && {
            let page = after[h as int];
            &&& after == before.update(h as int, page)
            &&& page.spec_page_id() == page_id
            &&& page@ == (TablePageView { deleted: true, ..before[h as int]@ })
            &&& page.spec_status() == (ClockStatus {
                deleted: true,
                edited: true,
                ..before[h as int].spec_status()
            })
        }
        &&& a.write_back is None
    } else {
        match disk {
            None => {
                &&& a.handle is None
                &&& a.write_back is None
                &&& after == before
            },
            Some(bytes) => {
                &&& a.handle matches Some(h) && {
                    let page = after[h as int];
                    &&& admitted(before, capacity, page, after, h as int)
                    &&& write_back_view(a.write_back) == owed_to_disk(
                        gone_at(before, capacity, h as int),
                    )
                    &&& page.spec_page_id() == page_id
                    &&& page@ == (TablePageView { deleted: true, ..decode(bytes@) })
                    &&& page.spec_status() == (ClockStatus {
                        deleted: true,
                        edited: true,
                        ..fresh_status()
                    })
                }
            },
        }
    }
}

impl BufferPoolManager {
    /// The resident table pages, by position.
    pub closed spec fn pages(&self) -> Seq<TablePage> {
        self.clock_replacer.pages()
    }

    /// How many table pages the pool holds at most.
    pub closed spec fn spec_capacity(&self) -> u32 {
        self.clock_replacer.spec_capacity()
    }

    /// The header page.
    pub closed spec fn header(&self) -> HeaderPage {
        self.header_page
    }

    /// Whether the pool holds a well-formed header page and no more table
    /// pages than it may, all of them well-formed.
    pub closed spec fn wf(&self) -> bool {
        &&& self.header_page.wf()
        &&& self.clock_replacer.wf()
    }

    /// What well-formedness says of the pages.
    pub proof fn lemma_wf(&self)
        requires
            self.wf(),
        ensures
            self.header().wf(),
            0 < self.spec_capacity(),
            self.pages().len() <= self.spec_capacity(),
            forall|i: int| 0 <= i < self.pages().len() ==> (#[trigger] self.pages()[i]).wf(),
    {
    }

    /// A pool for `cache_capacity` table pages. `header` is what the disk
    /// holds as page 0, or nothing when the file has no such page yet: then
    /// the catalog starts empty. It is an error when the capacity is zero,
    /// or when the bytes do not hold a catalog.
    pub fn open(header: Option<[u8; PAGE_SIZE]>, cache_capacity: u32) -> (r: Result<
        BufferPoolManager,
        Error,
    >)
        ensures
            r is Ok <==> cache_capacity > 0 && (header matches Some(bytes) ==> catalog_wf(
                catalog_of(bytes@),
            )),
            r is Err ==> r matches Err(Error::Value(_)),
            r matches Ok(pool) ==> {
                &&& pool.wf()
                &&& pool.spec_capacity() == cache_capacity
                &&& pool.pages() == Seq::<TablePage>::empty()
                &&& match header {
                    Some(bytes) => pool.header().image() == bytes@,
                    None => pool.header()@ == Seq::<RecordView>::empty(),
                }
            },
    {
        let clock_replacer = match ClockReplacer::new(cache_capacity) {
            Ok(c) => c,
            Err(e) => { return Err(e); },
        };
        let loaded = match header {
            Some(bytes) => HeaderPage::load(bytes),
            None => HeaderPage::new([0u8; PAGE_SIZE]),
        };
        match loaded {
            Ok(header_page) => Ok(BufferPoolManager { header_page, clock_replacer }),
            Err(e) => Err(e),
        }
    }

    /// The catalog.
    pub fn get_header_page(&self) -> (r: &HeaderPage)
        ensures
            *r == self.header(),
    {
        &self.header_page
    }

    /// The catalog, to be changed in place.
    pub fn get_header_page_mut(&mut self) -> (r: &mut HeaderPage)
        ensures
            *r == old(self).header(),
            final(self).header() == *final(r),
            final(self).pages() == old(self).pages(),
            final(self).spec_capacity() == old(self).spec_capacity(),
            old(self).wf() && final(r).wf() ==> final(self).wf(),
    {
        &mut self.header_page
    }

    /// How many table pages are resident.
    pub fn size(&self) -> (r: usize)
        ensures
            r == self.pages().len(),
    {
        self.clock_replacer.size()
    }

    /// The resident page at `handle`.
    pub fn get_page(&self, handle: usize) -> (r: &TablePage)
        requires
            handle < self.pages().len(),
        ensures
            *r == self.pages()[handle as int],
    {
        self.clock_replacer.get(handle)
    }

    /// The resident page at `handle`, to be read and changed in place.
    pub fn get_page_mut(&mut self, handle: usize) -> (r: &mut TablePage)
        requires
            handle < old(self).pages().len(),
        ensures
            *r == old(self).pages()[handle as int],
            final(self).pages() == old(self).pages().update(handle as int, *final(r)),
            final(self).header() == old(self).header(),
            final(self).spec_capacity() == old(self).spec_capacity(),
            old(self).wf() && final(r).wf() ==> final(self).wf(),
    {
        self.clock_replacer.get_mut(handle)
    }

    /// Where the page with the identifier `page_id` stands in the pool, if it
    /// is resident. A caller that finds it here need not read the disk.
    pub fn poll(&self, page_id: u32) -> (r: Option<usize>)
        ensures
            match r {
                Some(h) => is_resident_at(self.pages(), page_id, h as int),
                None => not_resident(self.pages(), page_id),
            },
    {
        match self.clock_replacer.poll(page_id) {
            Ok(found) => found,
            Err(_) => None,
        }
    }

    /// Gives the page with the identifier `page_id`. A resident page is
    /// given as it is, and `disk` is not looked at. Else `disk` is what the
    /// disk holds under `page_id`: when it holds nothing, there is no such
    /// page; when it holds a table page, the page is let into the pool, and
    /// the page that had to go for it is handed back if it has to be
    /// written. It is an error when the bytes are no table page with that
    /// identifier.
    pub fn fetch_page(&mut self, page_id: u32, disk: Option<[u8; PAGE_SIZE]>) -> (r: Result<
        Admission,
        Error,
    >)
        requires
            old(self).wf(),
        ensures
            final(self).wf(),
            final(self).header() == old(self).header(),
            final(self).spec_capacity() == old(self).spec_capacity(),
            r is Err <==> not_resident(old(self).pages(), page_id) && (disk matches Some(bytes)
                && !(decode(bytes@).page_id == page_id && decode(bytes@).wf())),
            r is Err ==> (r matches Err(Error::Value(_))),
            r is Err ==> final(self).pages() == old(self).pages(),
            r matches Ok(a) ==> fetched(
                old(self).pages(),
                old(self).spec_capacity() as int,
                page_id,
                disk,
                final(self).pages(),
                a,
            ),
    {
        if let Some(handle) = self.poll(page_id) {
            // in cache
            return Ok(Admission { handle: Some(handle), write_back: None });
        }
        match disk {
            None => Ok(Admission { handle: None, write_back: None }),
            Some(bytes) => {
                let table_page = match TablePage::load(page_id, bytes) {
                    Ok(page) => page,
                    Err(e) => { return Err(e); },
                };
                self.push_cache(table_page)
            },
        }
    }

    /// Makes the page with the identifier `page_id`, which must be new:
    /// when the disk holds such a page already (`on_disk`), or the pool
    /// does, no page is made. Else an empty table page is let into the pool,
    /// and the page that had to go for it is handed back if it has to be
    /// written. The identifier 0 is an error.
    pub fn create_page(&mut self, page_id: u32, on_disk: bool) -> (r: Result<Admission, Error>)
        requires
            old(self).wf(),
        ensures
            final(self).wf(),
            final(self).header() == old(self).header(),
            final(self).spec_capacity() == old(self).spec_capacity(),
            r is Err <==> !on_disk && not_resident(old(self).pages(), page_id) && page_id == 0,
            r is Err ==> (r matches Err(Error::Value(_))),
            r is Err ==> final(self).pages() == old(self).pages(),
            r matches Ok(a) ==> created(
                old(self).pages(),
                old(self).spec_capacity() as int,
                page_id,
                on_disk,
                final(self).pages(),
                a,
            ),
    {
        if on_disk {
            return Ok(Admission { handle: None, write_back: None });
        }
        if self.poll(page_id).is_some() {
            return Ok(Admission { handle: None, write_back: None });
        }
        let mut prev_page_id: Option<u32> = None;
        if page_id > 1 {
            prev_page_id = Some(page_id - 1);
        }
        let page_data = [0u8; PAGE_SIZE];
        proof {
            crate::table_proofs::lemma_blank_page(page_data@);
        }
        let table_page = match TablePage::new(page_id, prev_page_id, page_data) {
            Ok(page) => page,
            Err(e) => { return Err(e); },
        };
        self.push_cache(table_page)
    }

    /// Marks the page with the identifier `page_id` as deleted, in its bytes
    /// and in its flags; the page is fetched for it as `fetch_page` does.
    /// Gives the page, if there is such a page, and hands back the page that
    /// had to go for it if it has to be written.
    pub fn delete_page(&mut self, page_id: u32, disk: Option<[u8; PAGE_SIZE]>) -> (r: Result<
        Admission,
        Error,
    >)
        requires
            old(self).wf(),
        ensures
            final(self).wf(),
            final(self).header() == old(self).header(),
            final(self).spec_capacity() == old(self).spec_capacity(),
            r is Err <==> not_resident(old(self).pages(), page_id) && (disk matches Some(bytes)
                && !(decode(bytes@).page_id == page_id && decode(bytes@).wf())),
            r is Err ==> (r matches Err(Error::Value(_))),
            r is Err ==> final(self).pages() == old(self).pages(),
            r matches Ok(a) ==> deleted(
                old(self).pages(),
                old(self).spec_capacity() as int,
                page_id,
                disk,
                final(self).pages(),
                a,
            ),
    {
        let admission = match self.fetch_page(page_id, disk) {
            Ok(a) => a,
            Err(e) => { return Err(e); },
        };
        if let Some(handle) = admission.handle {
            let ghost before = self.pages();
            proof {
                assert(self.clock_replacer.wf());
                assert(before[handle as int].wf());
            }
            let page = self.clock_replacer.get_mut(handle);
            let _ = page.delete_page();
            page.get_status_mut().set_deleted(true);
            page.get_status_mut().edited();
            proof {
                let now = self.pages();
                assert(now =~= before.update(handle as int, now[handle as int]));
                if not_resident(old(self).pages(), page_id) {
                    let capacity = old(self).spec_capacity() as int;
                    if old(self).pages().len() < capacity {
                        assert(now =~= old(self).pages().push(now[handle as int]));
                    } else {
                        assert(now =~= ready_to_evict(old(self).pages()).update(
                            handle as int,
                            now[handle as int],
                        ));
                    }
                }
            }
        }
        Ok(admission)
    }

    /// The bytes of the page with the identifier `page_id` that have to be
    /// written to disk: those of a resident page whose bytes have changed.
    pub fn flush_page(&self, page_id: u32) -> (r: Result<Option<WriteBack>, Error>)
        ensures
            r matches Ok(w) && (not_resident(self.pages(), page_id) ==> w is None) && (forall|
                h: int,
            |
                is_resident_at(self.pages(), page_id, h) ==> write_back_view(w) == owed_to_disk(
                    Some(self.pages()[h]),
                )),
    {
        if let Some(handle) = self.poll(page_id) {
            assert forall|h: int| is_resident_at(self.pages(), page_id, h) implies h
                == handle by {}
            let table_page = self.clock_replacer.get(handle);
            if table_page.get_status().is_edited() {
                let data = vstd::slice::slice_to_vec(table_page.get_data());
                return Ok(Some(WriteBack { page_id, data }));
            }
        }
        Ok(None)
    }

    /// The bytes of every resident page that have to be written to disk,
    /// in the order of the pages' positions.
    pub fn flush_all(&self) -> (r: Result<Vec<WriteBack>, Error>)
        ensures
            r matches Ok(out) && out@.map_values(|w: WriteBack| w@) == dirty_of(self.pages()),
    {
        Ok(self.clock_replacer.flush_all())
    }

    /// Lets a page into the pool and says where it stands. The page that had
    /// to go for it is marked as removed, and handed back if its bytes have
    /// changed since they were read.
    fn push_cache(&mut self, table_page: TablePage) -> (r: Result<Admission, Error>)
        requires
            old(self).wf(),
            table_page.wf(),
            !table_page.spec_status().removed,
            not_resident(old(self).pages(), table_page.spec_page_id()),
        ensures
            final(self).wf(),
            final(self).header() == old(self).header(),
            final(self).spec_capacity() == old(self).spec_capacity(),
            r matches Ok(a) && a.handle matches Some(h) && admitted(
                old(self).pages(),
                old(self).spec_capacity() as int,
                table_page,
                final(self).pages(),
                h as int,
            ) && final(self).pages()[h as int] == table_page && write_back_view(a.write_back)
                == owed_to_disk(
                gone_at(old(self).pages(), old(self).spec_capacity() as int, h as int),
            ),
    {
        let page_id = *table_page.get_page_id();
        let ghost before = self.pages();
        let ghost capacity = self.spec_capacity() as int;
        let mut write_back: Option<WriteBack> = None;
        let pushed = self.clock_replacer.push(table_page);
        let ghost at: int = if before.len() < capacity {
            before.len() as int
        } else {
            self.clock_replacer.hand() as int
        };
        match pushed {
            Ok(Some(remove_page)) => {
                let mut page = remove_page;
                page.get_status_mut().set_removed(true);
                proof {
                    remove_page.lemma_with_status(page.spec_status());
                }
                if page.get_status().is_edited() {
                    let data = vstd::slice::slice_to_vec(page.get_data());
                    write_back = Some(WriteBack { page_id: *page.get_page_id(), data });
                }
            },
            Ok(None) => {},
            Err(e) => { return Err(e); },
        }
        proof {
            lemma_admitted_is_resident(before, capacity, self.pages(), at, page_id);
        }
        match self.clock_replacer.poll(page_id) {
            Ok(Some(handle)) => Ok(Admission { handle: Some(handle), write_back }),
            Ok(None) => Err(crate::error::value_error("the page that was pushed is not resident")),
            Err(e) => Err(e),
        }
    }
}

/// A page that has been let into a pool that did not hold its identifier
/// stands at the position where it was let in, and nowhere before it.
pub proof fn lemma_admitted_is_resident(
    before: Seq<TablePage>,
    capacity: int,
    after: Seq<TablePage>,
    at: int,
    page_id: u32,
)
    requires
        not_resident(before, page_id),
        before.len() <= capacity,
        0 < capacity,
        admitted(before, capacity, after[at], after, at),
        after[at].spec_page_id() == page_id,
        !after[at].spec_status().removed,
    ensures
        is_resident_at(after, page_id, at),
        forall|h: int| is_resident_at(after, page_id, h) ==> h == at,
{
    let ready = ready_to_evict(before);
    assert forall|j: int| 0 <= j < before.len() implies (#[trigger] ready[j]).spec_page_id()
        == before[j].spec_page_id() && ready[j].spec_status().removed
        == before[j].spec_status().removed by {
        before[j].lemma_with_status(ClockStatus { used: false, ..before[j].spec_status() });
    }
    assert forall|j: int| 0 <= j < after.len() && j != at implies !((#[trigger] after[j]).spec_page_id()
        == page_id && !after[j].spec_status().removed) by {
        if before.len() < capacity {
            assert(after[j] == before[j]);
        } else {
            assert(after[j] == ready[j]);
            assert(ready[j].spec_page_id() == before[j].spec_page_id());
        }
    }
}

} // verus!
