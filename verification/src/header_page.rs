use crate::codec::{lemma_u32_le_moved, spliced, stored, u32_le};
use crate::error::{value_error, Error};
use crate::page::{Page, PAGE_SIZE};
use vstd::prelude::*;
use vstd::string::StringSliceAdditionalSpecFns;

verus! {

/// The length of the name field of a record.
pub const NAME_SIZE: usize = 32;

/// The size of a record: a name and a root identifier.
pub const RECORD_SIZE: usize = 36;

/// Where the first record stands, behind the record count.
pub const OFFSET_RECORDS: usize = 4;

/// How many records the header page can hold.
pub const MAX_RECORDS: usize = 113;

/// One entry of the catalog.
pub struct RecordView {
    /// The name field: the name, padded with zero bytes to `NAME_SIZE`.
    pub name: Seq<u8>,
    /// The identifier of the root page that goes by the name.
    pub root_id: u32,
}

/// The name field for a name of at most `NAME_SIZE` bytes: the bytes of the
/// name, then zero bytes. Two names that differ only in zero bytes at their
/// end have the same field, and are the same name to the catalog.
pub open spec fn name_key(name: Seq<u8>) -> Seq<u8> {
    Seq::new(
        NAME_SIZE as nat,
        |i: int|
            if i < name.len() {
                name[i]
            } else {
                0u8
            },
    )
}

/// Whether some byte of the name field is not zero.
pub open spec fn name_is_set(name: Seq<u8>) -> bool {
    exists|i: int| 0 <= i < name.len() && #[trigger] name[i] != 0
}

/// Whether some record of the catalog goes by the name field `key`.
pub open spec fn has_record(records: Seq<RecordView>, key: Seq<u8>) -> bool {
    exists|i: int| 0 <= i < records.len() && (#[trigger] records[i]).name == key
}

/// Where the record with the name field `key` stands in the catalog.
pub open spec fn record_position(records: Seq<RecordView>, key: Seq<u8>) -> int {
    choose|i: int| 0 <= i < records.len() && (#[trigger] records[i]).name == key
}

/// The root identifier that the catalog holds for the name field `key`.
pub open spec fn lookup(records: Seq<RecordView>, key: Seq<u8>) -> Option<u32> {
    if has_record(records, key) {
        Some(records[record_position(records, key)].root_id)
    } else {
        None
    }
}

/// The rules of a catalog: it fits the page, every name field has its full
/// length, and no two records go by the same name.
pub open spec fn catalog_wf(records: Seq<RecordView>) -> bool {
    &&& records.len() <= MAX_RECORDS
    &&& forall|i: int| 0 <= i < records.len() ==> (#[trigger] records[i]).name.len() == NAME_SIZE
    &&& forall|i: int, j: int|
        0 <= i < records.len() && 0 <= j < records.len() && i != j ==> (#[trigger] records[i]).name
            != (#[trigger] records[j]).name
}

/// How many records of the catalog have a name field with a byte that is not
/// zero.
pub open spec fn count_named(records: Seq<RecordView>) -> nat
    decreases records.len(),
{
    if records.len() == 0 {
        0
    } else {
        count_named(records.drop_last()) + (if name_is_set(records.last().name) {
            1nat
        } else {
            0nat
        })
    }
}

/// The record count that the bytes hold.
pub open spec fn record_count_of(b: Seq<u8>) -> int {
    u32_le(b, 0) as int
}

/// Record `i` of the catalog that the bytes hold.
pub open spec fn record_of(b: Seq<u8>, i: int) -> RecordView {
    RecordView {
        name: b.subrange(OFFSET_RECORDS + RECORD_SIZE * i, OFFSET_RECORDS + RECORD_SIZE * i + NAME_SIZE),
        root_id: u32_le(b, OFFSET_RECORDS + RECORD_SIZE * i + NAME_SIZE),
    }
}

/// The catalog that the bytes hold.
pub open spec fn catalog_of(b: Seq<u8>) -> Seq<RecordView> {
    Seq::new(record_count_of(b) as nat, |i: int| record_of(b, i))
}

/// In a catalog without a repeated name, a record stands where its name is
/// found.
pub proof fn lemma_record_position(records: Seq<RecordView>, i: int)
    requires
        catalog_wf(records),
        0 <= i < records.len(),
    ensures
        has_record(records, records[i].name),
        record_position(records, records[i].name) == i,
        lookup(records, records[i].name) == Some(records[i].root_id),
{
    let key = records[i].name;
    let p = record_position(records, key);
    assert(0 <= p < records.len() && records[p].name == key);
}

/// The header page: the catalog that maps names to root page identifiers.
///
/// ```text
///  0         record count   4 bytes, little-endian
///  4 + 36 i  name           32 bytes, padded with zero bytes
/// 36 + 36 i  root id        4 bytes, little-endian
/// ```
pub struct HeaderPage {
    page: Page,
}

impl View for HeaderPage {
    type V = Seq<RecordView>;

    /// The catalog that the bytes of the page hold.
    open spec fn view(&self) -> Seq<RecordView> {
        catalog_of(self.image())
    }
}

impl HeaderPage {
    /// The bytes of the page.
    pub closed spec fn image(&self) -> Seq<u8> {
        self.page@
    }

    /// The identifier of the page.
    pub closed spec fn spec_page_id(&self) -> u32 {
        self.page.id()
    }

    /// Whether the page is page 0 and holds a catalog that obeys the rules.
    pub open spec fn wf(&self) -> bool {
        &&& self.image().len() == PAGE_SIZE
        &&& self.spec_page_id() == 0
        &&& catalog_wf(self@)
    }

    /// What does not change when the bytes of the page are written.
    closed spec fn same_frame(&self, other: &HeaderPage) -> bool {
        &&& self.page.id() == other.page.id()
        &&& self.page.pins() == other.page.pins()
        &&& self.page.dirty() == other.page.dirty()
    }

    /// An empty catalog over `data`.
    pub fn new(data: [u8; PAGE_SIZE]) -> (r: Result<HeaderPage, Error>)
        ensures
            r matches Ok(h) && h.wf() && h@ == Seq::<RecordView>::empty(),
    {
        let page = match Page::new(0, data) {
            Ok(page) => page,
            Err(e) => { return Err(e); },
        };
        let mut header_page = HeaderPage { page };
        header_page.set_record_count(0);
        assert(header_page@ =~= Seq::<RecordView>::empty());
        Ok(header_page)
    }

    /// The catalog that `data` holds, as it was read from disk. It is an error
    /// when the bytes hold more records than fit the page, or two records
    /// under one name.
    pub fn load(data: [u8; PAGE_SIZE]) -> (r: Result<HeaderPage, Error>)
        ensures
            r is Ok <==> catalog_wf(catalog_of(data@)),
            r is Err ==> r matches Err(Error::Value(_)),
            r matches Ok(h) ==> h.wf() && h.image() == data@,
    {
        let page = match Page::new(0, data) {
            Ok(page) => page,
            Err(e) => { return Err(e); },
        };
        let header_page = HeaderPage { page };
        let ghost b = header_page.image();
        let record_count = header_page.get_count();
        if record_count as usize > MAX_RECORDS {
            return Err(value_error("the header page holds too many records"));
        }
        let mut i: u32 = 0;
        while i < record_count
            invariant
                b == header_page.image(),
                b == data@,
                b.len() == PAGE_SIZE,
                i <= record_count == record_count_of(b) <= MAX_RECORDS,
                forall|k: int, l: int|
                    0 <= k < l < i ==> (#[trigger] catalog_of(b)[k]).name != (#[trigger] catalog_of(
                        b,
                    )[l]).name,
            decreases record_count - i,
        {
            let mut j: u32 = 0;
            while j < i
                invariant
                    b == header_page.image(),
                    b == data@,
                    b.len() == PAGE_SIZE,
                    j <= i < record_count == record_count_of(b) <= MAX_RECORDS,
                    forall|k: int|
                        0 <= k < j ==> (#[trigger] catalog_of(b)[k]).name != catalog_of(b)[i as int].name,
                decreases i - j,
            {
                if header_page.names_equal(j, i) {
                    proof {
                        let records = catalog_of(data@);
                        assert(b == data@);
                        assert(records[j as int] == record_of(b, j as int));
                        assert(records[i as int] == record_of(b, i as int));
                        assert(records[j as int].name == records[i as int].name);
                        assert(!catalog_wf(records));
                    }
                    return Err(value_error("the header page holds a name twice"));
                }
                j += 1;
            }
            i += 1;
        }
        proof {
            let records = catalog_of(b);
            assert forall|k: int, l: int|
                0 <= k < records.len() && 0 <= l < records.len() && k != l implies (
            #[trigger] records[k]).name != (#[trigger] records[l]).name by {
                if k < l {
                    assert(records[k].name != records[l].name);
                } else {
                    assert(records[l].name != records[k].name);
                }
            }
        }
        Ok(header_page)
    }

    /// Whether two records have the same name field.
    fn names_equal(&self, first: u32, second: u32) -> (r: bool)
        requires
            self.image().len() == PAGE_SIZE,
            first < MAX_RECORDS,
            second < MAX_RECORDS,
        ensures
            r == (record_of(self.image(), first as int).name == record_of(
                self.image(),
                second as int,
            ).name),
    {
        let at_first = OFFSET_RECORDS + RECORD_SIZE * first as usize;
        let at_second = OFFSET_RECORDS + RECORD_SIZE * second as usize;
        let ghost one = record_of(self.image(), first as int).name;
        let ghost two = record_of(self.image(), second as int).name;
        let mut i: usize = 0;
        while i < NAME_SIZE
            invariant
                i <= NAME_SIZE,
                self.image().len() == PAGE_SIZE,
                at_first == OFFSET_RECORDS + RECORD_SIZE * first,
                at_second == OFFSET_RECORDS + RECORD_SIZE * second,
                at_first + NAME_SIZE <= PAGE_SIZE,
                at_second + NAME_SIZE <= PAGE_SIZE,
                one == record_of(self.image(), first as int).name,
                two == record_of(self.image(), second as int).name,
                forall|j: int| 0 <= j < i ==> #[trigger] one[j] == two[j],
            decreases NAME_SIZE - i,
        {
            let x = self.page.get_byte(at_first + i);
            let y = self.page.get_byte(at_second + i);
            assert(x == one[i as int] && y == two[i as int]);
            if x != y {
                return false;
            }
            i += 1;
        }
        assert(one =~= two);
        true
    }

    /// Adds a record. Returns `false`, and changes nothing, when the name is
    /// longer than `NAME_SIZE` bytes, when a record goes by the name already,
    /// or when the page is full.
    pub fn insert_record(&mut self, name: &str, root_id: u32) -> (r: Result<bool, Error>)
        requires
            old(self).wf(),
        ensures
            final(self).wf(),
            r matches Ok(done) && done == (name.spec_bytes().len() <= NAME_SIZE && !has_record(
                old(self)@,
                name_key(name.spec_bytes()),
            ) && old(self)@.len() < MAX_RECORDS),
            r matches Ok(true) ==> final(self)@ == old(self)@.push(
                RecordView { name: name_key(name.spec_bytes()), root_id },
            ),
            r matches Ok(false) ==> final(self).image() == old(self).image(),
    {
        let name_data = name.as_bytes();
        if name_data.len() > NAME_SIZE {
            return Ok(false);
        }
        // check for duplicate name
        if self.find_record_num(name).is_some() {
            return Ok(false);
        }
        let record_count = self.get_count();
        if record_count as usize >= MAX_RECORDS {
            return Ok(false);
        }
        let ghost before = self.image();
        let ghost key = name_key(name.spec_bytes());

        // insert name
        let name_offset = OFFSET_RECORDS + record_count as usize * RECORD_SIZE;
        self.put_name(name_offset, name_data);

        // insert root_id
        let root_id_offset = name_offset + NAME_SIZE;
        self.page.put_u32(root_id_offset, root_id);

        // add record
        self.set_record_count(record_count + 1);
        proof {
            let after = self.image();
            let want = catalog_of(before).push(RecordView { name: key, root_id });
            assert forall|i: int| 0 <= i < record_count + 1 implies catalog_of(after)[i]
                == want[i] by {
                if i < record_count {
                    assert(record_of(after, i).name =~= record_of(before, i).name);
                } else {
                    assert(record_of(after, i).name =~= key);
                }
            }
            assert(catalog_of(after) =~= want);
            assert forall|i: int, j: int|
                0 <= i < want.len() && 0 <= j < want.len() && i != j implies (
            #[trigger] want[i]).name != (#[trigger] want[j]).name by {
                if i < record_count {
                    assert(catalog_of(before)[i].name == want[i].name);
                }
                if j < record_count {
                    assert(catalog_of(before)[j].name == want[j].name);
                }
            }
        }
        Ok(true)
    }

    /// Removes the record that goes by the name; the records behind it move
    /// up by one. Returns whether there was such a record.
    pub fn delete_record(&mut self, name: &str) -> (r: Result<bool, Error>)
        requires
            old(self).wf(),
        ensures
            final(self).wf(),
            r matches Ok(done) && done == (name.spec_bytes().len() <= NAME_SIZE && has_record(
                old(self)@,
                name_key(name.spec_bytes()),
            )),
            r matches Ok(true) ==> final(self)@ == old(self)@.remove(
                record_position(old(self)@, name_key(name.spec_bytes())),
            ),
            r matches Ok(false) ==> final(self).image() == old(self).image(),
    {
        let record_count = self.get_count();
        if record_count == 0 {
            return Ok(false);
        }
        if let Some(record_num) = self.find_record_num(name) {
            proof {
                lemma_record_position(self@, record_num as int);
            }
            // the record start offset
            let offset = record_num as usize * RECORD_SIZE + OFFSET_RECORDS;
            // the records that have to move
            let start_pointer = offset + RECORD_SIZE;
            let end_pointer = record_count as usize * RECORD_SIZE + OFFSET_RECORDS;
            let ghost before = self.image();

            self.page.copy_within(start_pointer, end_pointer, offset);
            self.set_record_count(record_count - 1);
            proof {
                let after = self.image();
                let want = catalog_of(before).remove(record_num as int);
                assert forall|i: int| 0 <= i < record_count - 1 implies catalog_of(after)[i]
                    == want[i] by {
                    let at = OFFSET_RECORDS + RECORD_SIZE * i;
                    if i < record_num {
                        assert(record_of(after, i).name =~= record_of(before, i).name);
                    } else {
                        assert(want[i] == record_of(before, i + 1));
                        assert forall|t: int| at <= t < at + RECORD_SIZE implies #[trigger] after[t]
                            == before[t + RECORD_SIZE] by {}
                        assert(record_of(after, i).name =~= record_of(before, i + 1).name);
                        lemma_u32_le_moved(
                            after,
                            at + NAME_SIZE,
                            before,
                            at + RECORD_SIZE + NAME_SIZE,
                        );
                    }
                }
                assert(catalog_of(after) =~= want);
                assert forall|i: int, j: int|
                    0 <= i < want.len() && 0 <= j < want.len() && i != j implies (
                #[trigger] want[i]).name != (#[trigger] want[j]).name by {
                    let i0 = if i < record_num { i } else { i + 1 };
                    let j0 = if j < record_num { j } else { j + 1 };
                    assert(catalog_of(before)[i0].name == want[i].name);
                    assert(catalog_of(before)[j0].name == want[j].name);
                }
                assert forall|i: int| 0 <= i < want.len() implies (#[trigger] want[i]).name.len()
                    == NAME_SIZE by {
                    let i0 = if i < record_num { i } else { i + 1 };
                    assert(catalog_of(before)[i0].name == want[i].name);
                }
            }
            Ok(true)
        } else {
            // record not exits
            Ok(false)
        }
    }

    /// Gives the record that goes by the name another root identifier.
    /// Returns whether there was such a record.
    pub fn update_record(&mut self, name: &str, root_id: u32) -> (r: Result<bool, Error>)
        requires
            old(self).wf(),
        ensures
            final(self).wf(),
            r matches Ok(done) && done == (name.spec_bytes().len() <= NAME_SIZE && has_record(
                old(self)@,
                name_key(name.spec_bytes()),
            )),
            r matches Ok(true) ==> final(self)@ == old(self)@.update(
                record_position(old(self)@, name_key(name.spec_bytes())),
                RecordView { name: name_key(name.spec_bytes()), root_id },
            ),
            r matches Ok(false) ==> final(self).image() == old(self).image(),
    {
        if let Some(record_num) = self.find_record_num(name) {
            proof {
                lemma_record_position(self@, record_num as int);
            }
            let offset = record_num as usize * RECORD_SIZE + OFFSET_RECORDS + NAME_SIZE;
            let ghost before = self.image();
            self.page.put_u32(offset, root_id);
            proof {
                let after = self.image();
                let want = catalog_of(before).update(
                    record_num as int,
                    RecordView { name: name_key(name.spec_bytes()), root_id },
                );
                assert forall|i: int| 0 <= i < catalog_of(before).len() implies catalog_of(after)[i]
                    == want[i] by {
                    assert(record_of(after, i).name =~= record_of(before, i).name);
                }
                assert(catalog_of(after) =~= want);
                assert forall|i: int, j: int|
                    0 <= i < want.len() && 0 <= j < want.len() && i != j implies (
                #[trigger] want[i]).name != (#[trigger] want[j]).name by {
                    assert(catalog_of(before)[i].name == want[i].name);
                    assert(catalog_of(before)[j].name == want[j].name);
                }
                assert forall|i: int| 0 <= i < want.len() implies (#[trigger] want[i]).name.len()
                    == NAME_SIZE by {
                    assert(catalog_of(before)[i].name == want[i].name);
                }
            }
            return Ok(true);
        }
        Ok(false)
    }

    /// The root identifier of the record that goes by the name, if there is
    /// such a record.
    pub fn get_root_id(&self, name: &str) -> (r: Result<Option<u32>, Error>)
        requires
            self.wf(),
        ensures
            r matches Ok(found) && found == (if name.spec_bytes().len() <= NAME_SIZE {
                lookup(self@, name_key(name.spec_bytes()))
            } else {
                None
            }),
    {
        if let Some(record_num) = self.find_record_num(name) {
            proof {
                lemma_record_position(self@, record_num as int);
            }
            let offset = record_num as usize * RECORD_SIZE + OFFSET_RECORDS + NAME_SIZE;
            return Ok(Some(self.page.get_u32(offset)));
        }
        Ok(None)
    }

    /// How many records the catalog holds.
    pub fn get_record_count(&self) -> (r: Result<u32, Error>)
        requires
            self.wf(),
        ensures
            r matches Ok(n) && n == self@.len(),
    {
        Ok(self.get_count())
    }

    /// The bytes of the page, as they go to disk.
    pub fn get_data(&self) -> (r: &[u8])
        ensures
            r@ == self.image(),
            r@.len() == PAGE_SIZE,
    {
        self.page.as_bytes()
    }

    /// The identifier of the header page.
    pub fn get_page_id(&self) -> (r: &u32)
        ensures
            *r == self.spec_page_id(),
    {
        self.page.get_page_id()
    }

    fn get_count(&self) -> (r: u32)
        ensures
            r == record_count_of(self.image()),
    {
        self.page.get_u32(0)
    }

    fn set_record_count(&mut self, record_count: u32)
        ensures
            final(self).same_frame(old(self)),
            final(self).image().len() == PAGE_SIZE,
            stored(old(self).image(), final(self).image(), 0, record_count),
    {
        self.page.put_u32(0, record_count);
    }

    /// Writes the name field for `name` from `at` on.
    fn put_name(&mut self, at: usize, name: &[u8])
        requires
            name@.len() <= NAME_SIZE,
            at + NAME_SIZE <= PAGE_SIZE,
        ensures
            final(self).same_frame(old(self)),
            final(self).image().len() == PAGE_SIZE,
            spliced(old(self).image(), final(self).image(), at as int, name_key(name@)),
    {
        let ghost before = self.image();
        proof {
            self.page.lemma_len();
        }
        let mut padded: [u8; 32] = [0u8; 32];
        let mut i: usize = 0;
        while i < name.len()
            invariant
                i <= name@.len() <= NAME_SIZE,
                padded@.len() == NAME_SIZE,
                forall|j: int| 0 <= j < i ==> #[trigger] padded@[j] == name@[j],
                forall|j: int| i <= j < NAME_SIZE ==> #[trigger] padded@[j] == 0,
            decreases name@.len() - i,
        {
            padded[i] = name[i];
            i += 1;
        }
        assert(padded@ =~= name_key(name@));
        assert(padded@.subrange(0, NAME_SIZE as int) =~= padded@);
        self.page.put_bytes(at, padded.as_slice(), NAME_SIZE);
    }

    /// Whether the name field of record `record_num` is that of `name`.
    fn name_matches(&self, record_num: u32, name: &[u8]) -> (r: bool)
        requires
            self.image().len() == PAGE_SIZE,
            record_num < MAX_RECORDS,
            name@.len() <= NAME_SIZE,
        ensures
            r == (record_of(self.image(), record_num as int).name == name_key(name@)),
    {
        let at = OFFSET_RECORDS + RECORD_SIZE * record_num as usize;
        let ghost field = record_of(self.image(), record_num as int).name;
        let mut i: usize = 0;
        while i < NAME_SIZE
            invariant
                i <= NAME_SIZE,
                at + NAME_SIZE <= PAGE_SIZE,
                self.image().len() == PAGE_SIZE,
                at == OFFSET_RECORDS + RECORD_SIZE * record_num,
                name@.len() <= NAME_SIZE,
                field == record_of(self.image(), record_num as int).name,
                forall|j: int| 0 <= j < i ==> #[trigger] field[j] == name_key(name@)[j],
            decreases NAME_SIZE - i,
        {
            let stored = self.page.get_byte(at + i);
            let wanted = if i < name.len() {
                name[i]
            } else {
                0
            };
            assert(stored == field[i as int]);
            if stored != wanted {
                assert(field[i as int] != name_key(name@)[i as int]);
                return false;
            }
            i += 1;
        }
        assert(field =~= name_key(name@));
        true
    }

    /// Where the record that goes by the name stands, if there is one.
    fn find_record_num(&self, name: &str) -> (r: Option<u32>)
        requires
            self.wf(),
        ensures
            match r {
                Some(i) => name.spec_bytes().len() <= NAME_SIZE && i < self@.len() && self@[i as int].name
                    == name_key(name.spec_bytes()),
                None => name.spec_bytes().len() > NAME_SIZE || !has_record(
                    self@,
                    name_key(name.spec_bytes()),
                ),
            },
    {
        let name_data = name.as_bytes();
        if name_data.len() > NAME_SIZE {
            return None;
        }
        let record_count = self.get_count();
        let mut record_num: u32 = 0;
        while record_num < record_count
            invariant
                self.wf(),
                record_count == self@.len(),
                record_num <= record_count,
                name_data@ == name.spec_bytes(),
                name_data@.len() <= NAME_SIZE,
                forall|j: int|
                    0 <= j < record_num ==> (#[trigger] self@[j]).name != name_key(name_data@),
            decreases record_count - record_num,
        {
            if self.name_matches(record_num, name_data) {
                return Some(record_num);
            }
            record_num += 1;
        }
        None
    }
}

} // verus!
