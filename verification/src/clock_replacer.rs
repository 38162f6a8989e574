use crate::error::{value_error, Error};
use crate::table_page::TablePage;
use vstd::prelude::*;

verus! {

/// How readily the replacer gives a page up: `HIGH` goes first, `LOW` never
/// goes as it is.
#[derive(Clone, Copy, Debug, PartialEq, Eq, Structural, Hash)]
pub enum ExpelLevel {
    HIGH,
    NORMAL,
    MEDIUM,
    LOW,
}

/// The flags of a resident page that drive replacement.
#[derive(Clone, Copy, Debug, PartialEq, Eq, Structural)]
pub struct ClockStatus {
    /// Accessed since the last sweep.
    pub used: bool,
    /// The bytes differ from what the disk holds.
    pub edited: bool,
    /// The page as a whole is marked deleted.
    pub deleted: bool,
    /// The replacer has given the page up.
    pub removed: bool,
}

/// The level of a page with the given two flags.
pub open spec fn level_of(used: bool, edited: bool) -> ExpelLevel {
    if !used && !edited {
        ExpelLevel::HIGH
    } else if used && !edited {
        ExpelLevel::NORMAL
    } else if !used && edited {
        ExpelLevel::MEDIUM
    } else {
        ExpelLevel::LOW
    }
}

impl ClockStatus {
    /// The level that the flags put a page at.
    pub open spec fn spec_level(self) -> ExpelLevel {
        level_of(self.used, self.edited)
    }

    /// No flag set.
    pub fn empty() -> (r: ClockStatus)
        ensures
            r == (ClockStatus { used: false, edited: false, deleted: false, removed: false }),
    {
        ClockStatus { used: false, edited: false, deleted: false, removed: false }
    }

    /// Records an access.
    pub fn used(&mut self)
        ensures
            *final(self) == (ClockStatus { used: true, ..*old(self) }),
    {
        self.used = true;
    }

    /// Records a change to the bytes.
    pub fn edited(&mut self)
        ensures
            *final(self) == (ClockStatus { edited: true, ..*old(self) }),
    {
        self.edited = true;
    }

    /// Forgets the accesses so far.
    pub fn un_used(&mut self)
        ensures
            *final(self) == (ClockStatus { used: false, ..*old(self) }),
    {
        self.used = false;
    }

    /// Whether the bytes have changed.
    pub fn is_edited(&self) -> (r: bool)
        ensures
            r == self.edited,
    {
        self.edited
    }

    /// Sets or clears the mark that the page is deleted.
    pub fn set_deleted(&mut self, flag: bool)
        ensures
            *final(self) == (ClockStatus { deleted: flag, ..*old(self) }),
    {
        self.deleted = flag;
    }

    /// Whether the replacer has given the page up.
    pub fn get_removed(&self) -> (r: bool)
        ensures
            r == self.removed,
    {
        self.removed
    }

    /// Sets or clears the mark that the replacer has given the page up.
    pub fn set_removed(&mut self, flag: bool)
        ensures
            *final(self) == (ClockStatus { removed: flag, ..*old(self) }),
    {
        self.removed = flag
    }

    /// The level that the flags put the page at.
    pub fn level(&self) -> (r: ExpelLevel)
        ensures
            r == self.spec_level(),
    {
        ExpelLevel::from(self)
    }
}

impl ExpelLevel {
    /// The level of a page with the given flags.
    pub fn from(clock_status: &ClockStatus) -> (r: ExpelLevel)
        ensures
            r == clock_status.spec_level(),
    {
        if !clock_status.used && !clock_status.edited {
            ExpelLevel::HIGH
        } else if clock_status.used && !clock_status.edited {
            ExpelLevel::NORMAL
        } else if !clock_status.used && clock_status.edited {
            ExpelLevel::MEDIUM
        } else {
            ExpelLevel::LOW
        }
    }
}

/// A bounded cache of table pages that picks the page to give up by the
/// flags of the pages it holds.
pub struct ClockReplacer {
    clock_hand: u32,
    pages: Vec<TablePage>,
    capacity: u32,
}

/// The positions of the resident pages, grouped by the level of each page;
/// every group is in ascending order.
struct LevelGroups {
    high: Vec<u32>,
    normal: Vec<u32>,
    medium: Vec<u32>,
    low: Vec<u32>,
}

/// The bytes of a page that have to go to disk.
pub struct WriteBack {
    pub page_id: u32,
    pub data: Vec<u8>,
}

impl View for WriteBack {
    type V = (u32, Seq<u8>);

    open spec fn view(&self) -> (u32, Seq<u8>) {
        (self.page_id, self.data@)
    }
}

/// The levels of the pages, position by position.
pub open spec fn levels_of(pages: Seq<TablePage>) -> Seq<ExpelLevel> {
    Seq::new(pages.len(), |i: int| pages[i].spec_status().spec_level())
}

/// The pages after a sweep: each with its `used` flag cleared.
pub open spec fn swept(pages: Seq<TablePage>) -> Seq<TablePage> {
    Seq::new(
        pages.len(),
        |i: int| pages[i].with_status(ClockStatus { used: false, ..pages[i].spec_status() }),
    )
}

/// Whether `i` is the first position at the given level.
pub open spec fn is_first_at(levels: Seq<ExpelLevel>, level: ExpelLevel, i: int) -> bool {
    &&& 0 <= i < levels.len()
    &&& levels[i] == level
    &&& forall|j: int| 0 <= j < i ==> #[trigger] levels[j] != level
}

/// Whether no position is at the given level.
pub open spec fn none_at(levels: Seq<ExpelLevel>, level: ExpelLevel) -> bool {
    forall|j: int| 0 <= j < levels.len() ==> #[trigger] levels[j] != level
}

/// Whether `i` is the position that goes: the first at `HIGH`; where no
/// page is at `HIGH`, the first at `NORMAL`; where none is at either, the
/// first at `MEDIUM`.
pub open spec fn is_victim(levels: Seq<ExpelLevel>, i: int) -> bool {
    ||| is_first_at(levels, ExpelLevel::HIGH, i)
    ||| none_at(levels, ExpelLevel::HIGH) && is_first_at(levels, ExpelLevel::NORMAL, i)
    ||| none_at(levels, ExpelLevel::HIGH) && none_at(levels, ExpelLevel::NORMAL) && is_first_at(
        levels,
        ExpelLevel::MEDIUM,
        i,
    )
}

/// Whether every page is well-formed.
pub open spec fn all_wf(pages: Seq<TablePage>) -> bool {
    forall|i: int| 0 <= i < pages.len() ==> (#[trigger] pages[i]).wf()
}

/// Whether every page is at `LOW`, so that nothing goes before a sweep.
pub open spec fn all_low(levels: Seq<ExpelLevel>) -> bool {
    forall|j: int| 0 <= j < levels.len() ==> #[trigger] levels[j] == ExpelLevel::LOW
}

/// The pages as they stand when one of them has to go: as they are, or,
/// when every page is at `LOW`, after a sweep.
pub open spec fn ready_to_evict(pages: Seq<TablePage>) -> Seq<TablePage> {
    if all_low(levels_of(pages)) {
        swept(pages)
    } else {
        pages
    }
}

/// Whether `group` holds, in ascending order, exactly the positions at the
/// given level.
pub open spec fn is_group(levels: Seq<ExpelLevel>, level: ExpelLevel, group: Seq<u32>) -> bool {
    &&& forall|j: int|
        0 <= j < group.len() ==> (#[trigger] group[j]) < levels.len() && levels[group[j] as int]
            == level
    &&& forall|j: int, k: int| 0 <= j < k < group.len() ==> #[trigger] group[j] < #[trigger] group[k]
    &&& forall|i: int|
        0 <= i < levels.len() && #[trigger] levels[i] == level ==> group.contains(i as u32)
}

/// The pages that have changed since they were read, each with its
/// identifier and its bytes, in the order of their positions.
pub open spec fn dirty_of(pages: Seq<TablePage>) -> Seq<(u32, Seq<u8>)>
    decreases pages.len(),
{
    if pages.len() == 0 {
        Seq::empty()
    } else {
        let rest = dirty_of(pages.drop_last());
        let page = pages.last();
        if page.spec_status().edited {
            rest.push((page.spec_page_id(), page.image()))
        } else {
            rest
        }
    }
}

/// Whether `i` is the first position that holds a page with the identifier
/// `page_id` that the replacer has not given up.
pub open spec fn is_resident_at(pages: Seq<TablePage>, page_id: u32, i: int) -> bool {
    &&& 0 <= i < pages.len()
    &&& pages[i].spec_page_id() == page_id
    &&& !pages[i].spec_status().removed
    &&& forall|j: int|
        0 <= j < i ==> !((#[trigger] pages[j]).spec_page_id() == page_id
            && !pages[j].spec_status().removed)
}

/// Whether no position holds a page with the identifier `page_id` that the
/// replacer has not given up.
pub open spec fn not_resident(pages: Seq<TablePage>, page_id: u32) -> bool {
    forall|j: int|
        0 <= j < pages.len() ==> !((#[trigger] pages[j]).spec_page_id() == page_id
            && !pages[j].spec_status().removed)
}

/// The first position of a complete group is the first position at its
/// level, and an empty one shows that no page is at that level.
pub proof fn lemma_group_first(levels: Seq<ExpelLevel>, level: ExpelLevel, group: Seq<u32>)
    requires
        is_group(levels, level, group),
    ensures
        group.len() > 0 ==> is_first_at(levels, level, group[0] as int),
        group.len() == 0 ==> none_at(levels, level),
{
    if group.len() > 0 {
        assert forall|j: int| 0 <= j < group[0] implies #[trigger] levels[j] != level by {
            if levels[j] == level {
                assert(group.contains(j as u32));
                let w = choose|w: int| 0 <= w < group.len() && group[w] == j as u32;
                if w > 0 {
                    assert(group[0] < group[w]);
                }
            }
        }
    } else {
        assert forall|j: int| 0 <= j < levels.len() implies #[trigger] levels[j] != level by {
            if levels[j] == level {
                assert(group.contains(j as u32));
            }
        }
    }
}

/// A page at `HIGH` goes before any page at another level: where a page is
/// at `HIGH`, the page that goes is at `HIGH`, and it is the first such page.
pub proof fn law_high_goes_first(levels: Seq<ExpelLevel>, victim: int, other: int)
    requires
        is_victim(levels, victim),
        0 <= other < levels.len(),
        levels[other] == ExpelLevel::HIGH,
    ensures
        levels[victim] == ExpelLevel::HIGH,
        victim <= other,
{
}

/// The page that goes is at the best level that any page is at, and no page
/// at `LOW` ever goes as it is.
pub proof fn law_victim_is_best(levels: Seq<ExpelLevel>, victim: int, other: int)
    requires
        is_victim(levels, victim),
        0 <= other < levels.len(),
    ensures
        levels[victim] != ExpelLevel::LOW,
        levels[other] == ExpelLevel::NORMAL ==> levels[victim] != ExpelLevel::MEDIUM,
        levels[other] == levels[victim] ==> victim <= other,
{
}

/// Where every page is at `LOW`, a sweep puts every page at `MEDIUM`, and
/// the first page goes.
pub proof fn law_sweep_when_all_low(pages: Seq<TablePage>, victim: int)
    requires
        pages.len() > 0,
        all_low(levels_of(pages)),
        is_victim(levels_of(ready_to_evict(pages)), victim),
    ensures
        victim == 0,
        forall|i: int|
            0 <= i < pages.len() ==> #[trigger] levels_of(ready_to_evict(pages))[i]
                == ExpelLevel::MEDIUM,
{
    let after = ready_to_evict(pages);
    assert forall|i: int| 0 <= i < pages.len() implies #[trigger] levels_of(after)[i]
        == ExpelLevel::MEDIUM by {
        pages[i].lemma_with_status(ClockStatus { used: false, ..pages[i].spec_status() });
        assert(levels_of(pages)[i] == ExpelLevel::LOW);
    }
    assert(levels_of(after)[0] == ExpelLevel::MEDIUM);
}

impl ClockReplacer {
    /// The resident pages, by position.
    pub closed spec fn pages(&self) -> Seq<TablePage> {
        self.pages@
    }

    /// How many pages the replacer holds at most.
    pub closed spec fn spec_capacity(&self) -> u32 {
        self.capacity
    }

    /// The position of the page that went last.
    pub closed spec fn hand(&self) -> u32 {
        self.clock_hand
    }

    /// Whether the replacer holds no more pages than it may, and only
    /// well-formed ones.
    pub open spec fn wf(&self) -> bool {
        &&& 0 < self.spec_capacity()
        &&& self.pages().len() <= self.spec_capacity()
        &&& all_wf(self.pages())
    }

    /// An empty replacer for `capacity` pages. A capacity of zero is an error.
    pub fn new(capacity: u32) -> (r: Result<ClockReplacer, Error>)
        ensures
            r is Err <==> capacity == 0,
            r is Err ==> r matches Err(Error::Value(_)),
            r matches Ok(c) ==> c.wf() && c.spec_capacity() == capacity && c.pages()
                == Seq::<TablePage>::empty() && c.hand() == 0,
    {
        if capacity == 0 {
            return Err(value_error("capacity can't be zero!"));
        }
        Ok(ClockReplacer { clock_hand: 0, pages: Vec::new(), capacity })
    }

    /// How many pages are resident.
    pub fn size(&self) -> (r: usize)
        ensures
            r == self.pages().len(),
    {
        self.pages.len()
    }

    /// How many pages the replacer holds at most.
    pub fn capacity(&self) -> (r: u32)
        ensures
            r == self.spec_capacity(),
    {
        self.capacity
    }

    /// The position of the resident page with the identifier `page_id`, if
    /// the replacer holds one that it has not given up. The flags of the page
    /// stay as they are.
    pub fn poll(&self, page_id: u32) -> (r: Result<Option<usize>, Error>)
        ensures
            r matches Ok(found) && match found {
                Some(i) => is_resident_at(self.pages(), page_id, i as int),
                None => not_resident(self.pages(), page_id),
            },
    {
        let mut i: usize = 0;
        while i < self.pages.len()
            invariant
                i <= self.pages@.len(),
                forall|j: int|
                    0 <= j < i ==> !((#[trigger] self.pages@[j]).spec_page_id() == page_id
                        && !self.pages@[j].spec_status().removed),
            decreases self.pages@.len() - i,
        {
            let page = &self.pages[i];
            if *page.get_page_id() == page_id && !page.get_status().get_removed() {
                return Ok(Some(i));
            }
            i += 1;
        }
        Ok(None)
    }

    /// The resident page at `index`.
    pub fn get(&self, index: usize) -> (r: &TablePage)
        requires
            index < self.pages().len(),
        ensures
            *r == self.pages()[index as int],
    {
        &self.pages[index]
    }

    /// The resident page at `index`, to be changed in place.
    pub fn get_mut(&mut self, index: usize) -> (r: &mut TablePage)
        requires
            index < old(self).pages().len(),
        ensures
            *r == old(self).pages()[index as int],
            final(self).pages() == old(self).pages().update(index as int, *final(r)),
            final(self).spec_capacity() == old(self).spec_capacity(),
            final(self).hand() == old(self).hand(),
    {
        &mut self.pages[index]
    }

    /// Takes a page in. While there is room the page is added and nothing
    /// goes. At capacity one resident page goes and the new page takes its
    /// position: the first page at the best level that any page is at,
    /// `HIGH` before `NORMAL` before `MEDIUM`; when every page is at `LOW`,
    /// a sweep clears the `used` flag of all of them first. The page that
    /// went is returned as it was; whether it has to be written is for the
    /// caller to see.
    pub fn push(&mut self, page: TablePage) -> (r: Result<Option<TablePage>, Error>)
        requires
            old(self).wf(),
            page.wf(),
        ensures
            final(self).wf(),
            final(self).spec_capacity() == old(self).spec_capacity(),
            r matches Ok(gone) && (gone is Some <==> old(self).pages().len() == old(self).spec_capacity()),
            r matches Ok(None) ==> final(self).pages() == old(self).pages().push(page) && final(self).hand() == old(self).hand(),
            r matches Ok(Some(evicted)) ==> ({
                let before = ready_to_evict(old(self).pages());
                let index = final(self).hand() as int;
                &&& is_victim(levels_of(before), index)
                &&& evicted == before[index]
                &&& final(self).pages() == before.update(index, page)
            }),
    {
        match self.check_hand() {
            Ok(Some(index)) => {
                let remove_page = self.pages.remove(index);
                self.pages.insert(index, page);
                proof {
                    let before = ready_to_evict(old(self).pages());
                    assert(self.pages@ =~= before.update(index as int, page));
                }
                Ok(Some(remove_page))
            },
            Ok(None) => {
                self.pages.push(page);
                Ok(None)
            },
            Err(e) => Err(e),
        }
    }

    /// The changed pages among the resident ones, each with its identifier
    /// and a copy of its bytes, for the caller to write to disk.
    pub fn flush_all(&self) -> (r: Vec<WriteBack>)
        ensures
            r@.map_values(|w: WriteBack| w@) == dirty_of(self.pages()),
    {
        let mut out: Vec<WriteBack> = Vec::new();
        let mut i: usize = 0;
        assert(self.pages@.take(0) =~= Seq::<TablePage>::empty());
        while i < self.pages.len()
            invariant
                i <= self.pages@.len(),
                out@.map_values(|w: WriteBack| w@) == dirty_of(self.pages@.take(i as int)),
            decreases self.pages@.len() - i,
        {
            let page = &self.pages[i];
            let ghost so_far = out@;
            if page.get_status().is_edited() {
                let page_id = *page.get_page_id();
                let data = vstd::slice::slice_to_vec(page.get_data());
                out.push(WriteBack { page_id, data });
            }
            proof {
                assert(self.pages@.take(i + 1).drop_last() =~= self.pages@.take(i as int));
                if page.spec_status().edited {
                    assert(out@.map_values(|w: WriteBack| w@) =~= so_far.map_values(
                        |w: WriteBack| w@,
                    ).push((page.spec_page_id(), page.image())));
                }
            }
            i += 1;
        }
        assert(self.pages@.take(self.pages@.len() as int) =~= self.pages@);
        out
    }

    /// Picks the position that has to go, if the replacer is at capacity.
    /// One sweep is enough to find one; the search still gives up after four
    /// rounds.
    fn check_hand(&mut self) -> (r: Result<Option<usize>, Error>)
        requires
            old(self).wf(),
        ensures
            final(self).spec_capacity() == old(self).spec_capacity(),
            r matches Ok(found) && (found is Some <==> old(self).pages().len() == old(self).spec_capacity()),
            r matches Ok(None) ==> final(self).pages() == old(self).pages() && final(self).hand()
                == old(self).hand(),
            r matches Ok(Some(index)) ==> ({
                let before = ready_to_evict(old(self).pages());
                &&& index == final(self).hand()
                &&& index < old(self).pages().len()
                &&& is_victim(levels_of(before), index as int)
                &&& final(self).pages() == before
                &&& all_wf(before)
            }),
    {
        if self.capacity as usize > self.pages.len() {
            return Ok(None);
        }
        let mut loop_counter: u32 = 0;
        while loop_counter < 4
            invariant
                self.capacity == old(self).capacity,
                self.clock_hand == old(self).clock_hand,
                old(self).wf(),
                self.pages@.len() == old(self).pages@.len() == self.capacity,
                loop_counter <= 1,
                loop_counter == 0 ==> self.pages@ == old(self).pages@,
                loop_counter > 0 ==> all_low(levels_of(old(self).pages@)) && self.pages@ == swept(
                    old(self).pages@,
                ),
            decreases 4 - loop_counter,
        {
            let group_map = self.group_by_level();
            proof {
                let levels = levels_of(self.pages@);
                lemma_group_first(levels, ExpelLevel::HIGH, group_map.high@);
                lemma_group_first(levels, ExpelLevel::NORMAL, group_map.normal@);
                lemma_group_first(levels, ExpelLevel::MEDIUM, group_map.medium@);
                if loop_counter > 0 {
                    // after a sweep every page is at MEDIUM
                    assert(levels[0] == ExpelLevel::MEDIUM) by {
                        old(self).pages@[0].lemma_with_status(
                            ClockStatus { used: false, ..old(self).pages@[0].spec_status() },
                        );
                        assert(levels_of(old(self).pages@)[0] == ExpelLevel::LOW);
                    }
                }
                assert(all_wf(self.pages@)) by {
                    assert forall|i: int| 0 <= i < self.pages@.len() implies (
                    #[trigger] self.pages@[i]).wf() by {
                        old(self).pages@[i].lemma_with_status(
                            ClockStatus { used: false, ..old(self).pages@[i].spec_status() },
                        );
                        assert(old(self).pages()[i].wf());
                    }
                }
                if loop_counter == 0 && all_low(levels) {
                    assert(levels[0] == ExpelLevel::LOW);
                }
            }
            if group_map.high.len() > 0 {
                let index = group_map.high[0];
                self.clock_hand = index;
                return Ok(Some(index as usize));
            }
            if group_map.normal.len() > 0 {
                let index = group_map.normal[0];
                self.clock_hand = index;
                return Ok(Some(index as usize));
            }
            if group_map.medium.len() > 0 {
                let index = group_map.medium[0];
                self.clock_hand = index;
                return Ok(Some(index as usize));
            }
            proof {
                let levels = levels_of(self.pages@);
                assert(loop_counter == 0) by {
                    if loop_counter > 0 {
                        assert(levels[0] == ExpelLevel::MEDIUM);
                    }
                }
                assert forall|j: int| 0 <= j < levels.len() implies #[trigger] levels[j]
                    == ExpelLevel::LOW by {
                    assert(levels[j] != ExpelLevel::HIGH);
                    assert(levels[j] != ExpelLevel::NORMAL);
                    assert(levels[j] != ExpelLevel::MEDIUM);
                }
            }
            self.clockwise();
            loop_counter += 1;
        }
        Err(value_error("Clock Replacer can not find any page by remove memory"))
    }

    /// The positions at the given level, in ascending order.
    fn positions_at(&self, level: ExpelLevel) -> (r: Vec<u32>)
        requires
            self.pages@.len() <= u32::MAX,
        ensures
            is_group(levels_of(self.pages@), level, r@),
    {
        let ghost levels = levels_of(self.pages@);
        let mut out: Vec<u32> = Vec::new();
        let mut index: u32 = 0;
        while (index as usize) < self.pages.len()
            invariant
                self.pages@.len() <= u32::MAX,
                index <= self.pages@.len(),
                levels == levels_of(self.pages@),
                forall|j: int|
                    0 <= j < out@.len() ==> (#[trigger] out@[j]) < index && levels[out@[j] as int]
                        == level,
                forall|j: int, k: int|
                    0 <= j < k < out@.len() ==> #[trigger] out@[j] < #[trigger] out@[k],
                forall|i: int|
                    0 <= i < index && #[trigger] levels[i] == level ==> out@.contains(i as u32),
            decreases self.pages@.len() - index,
        {
            let ghost so_far = out@;
            if self.pages[index as usize].get_status().level() == level {
                out.push(index);
            }
            proof {
                assert forall|i: int|
                    0 <= i < index + 1 && #[trigger] levels[i] == level implies out@.contains(
                    i as u32,
                ) by {
                    if i < index {
                        assert(so_far.contains(i as u32));
                        let w = choose|w: int| 0 <= w < so_far.len() && so_far[w] == i as u32;
                        assert(out@[w] == i as u32);
                    } else {
                        assert(out@[out@.len() - 1] == i as u32);
                    }
                }
            }
            index += 1;
        }
        out
    }

    /// The positions of the resident pages, grouped by level.
    fn group_by_level(&self) -> (r: LevelGroups)
        requires
            self.pages@.len() <= u32::MAX,
        ensures
            is_group(levels_of(self.pages@), ExpelLevel::HIGH, r.high@),
            is_group(levels_of(self.pages@), ExpelLevel::NORMAL, r.normal@),
            is_group(levels_of(self.pages@), ExpelLevel::MEDIUM, r.medium@),
            is_group(levels_of(self.pages@), ExpelLevel::LOW, r.low@),
    {
        LevelGroups {
            high: self.positions_at(ExpelLevel::HIGH),
            normal: self.positions_at(ExpelLevel::NORMAL),
            medium: self.positions_at(ExpelLevel::MEDIUM),
            low: self.positions_at(ExpelLevel::LOW),
        }
    }

    /// One sweep of the clock: clears the `used` flag of every resident page.
    fn clockwise(&mut self)
        ensures
            final(self).capacity == old(self).capacity,
            final(self).clock_hand == old(self).clock_hand,
            final(self).pages@ == swept(old(self).pages@),
    {
        let mut i: usize = 0;
        while i < self.pages.len()
            invariant
                self.capacity == old(self).capacity,
                self.clock_hand == old(self).clock_hand,
                i <= self.pages@.len(),
                self.pages@.len() == old(self).pages@.len(),
                forall|j: int| 0 <= j < i ==> #[trigger] self.pages@[j] == swept(old(self).pages@)[j],
                forall|j: int| i <= j < self.pages@.len() ==> #[trigger] self.pages@[j] == old(self).pages@[j],
            decreases self.pages@.len() - i,
        {
            self.pages[i].get_status_mut().un_used();
            i += 1;
        }
        assert(self.pages@ =~= swept(old(self).pages@));
    }
}

} // verus!
