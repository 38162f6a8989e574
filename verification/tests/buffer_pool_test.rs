use toydb::buffer_pool::{Admission, BufferPoolManager};
use toydb::clock_replacer::{ExpelLevel, WriteBack};
use toydb::disk_manager::{check_page_data, have_page, page_offset};
use toydb::error::Error;
use toydb::page::PAGE_SIZE;
use toydb::tuple::{Tuple, RID};

/// A database file kept in memory.
struct Disk {
    file: Vec<u8>,
    writes: u32,
}

impl Disk {
    fn new() -> Disk {
        Disk { file: Vec::new(), writes: 0 }
    }

    fn has(&self, page_id: u32) -> bool {
        have_page(page_id, self.file.len() as u64)
    }

    fn read(&self, page_id: u32) -> Option<[u8; PAGE_SIZE]> {
        if !self.has(page_id) {
            return None;
        }
        let at = page_offset(page_id) as usize;
        let mut page = [0u8; PAGE_SIZE];
        page.copy_from_slice(&self.file[at..at + PAGE_SIZE]);
        Some(page)
    }

    fn write(&mut self, page_id: u32, data: &[u8]) -> Result<(), Error> {
        check_page_data(data.len())?;
        let at = page_offset(page_id) as usize;
        if self.file.len() < at + PAGE_SIZE {
            self.file.resize(at + PAGE_SIZE, 0);
        }
        self.file[at..at + PAGE_SIZE].copy_from_slice(data);
        self.writes += 1;
        Ok(())
    }

    fn write_back(&mut self, write_back: Option<WriteBack>) -> Result<(), Error> {
        if let Some(w) = write_back {
            self.write(w.page_id, &w.data)?;
        }
        Ok(())
    }
}

fn open(disk: &mut Disk, capacity: u32) -> Result<BufferPoolManager, Error> {
    let header = disk.read(0);
    let pool = BufferPoolManager::open(header, capacity)?;
    if header.is_none() {
        disk.write(0, pool.get_header_page().get_data())?;
    }
    Ok(pool)
}

fn fetch(pool: &mut BufferPoolManager, disk: &mut Disk, page_id: u32) -> Result<Option<usize>, Error> {
    if let Some(handle) = pool.poll(page_id) {
        return Ok(Some(handle));
    }
    let Admission { handle, write_back } = pool.fetch_page(page_id, disk.read(page_id))?;
    disk.write_back(write_back)?;
    Ok(handle)
}

fn create(pool: &mut BufferPoolManager, disk: &mut Disk, page_id: u32) -> Result<Option<usize>, Error> {
    let Admission { handle, write_back } = pool.create_page(page_id, disk.has(page_id))?;
    disk.write_back(write_back)?;
    Ok(handle)
}

fn close(pool: BufferPoolManager, disk: &mut Disk) -> Result<(), Error> {
    for w in pool.flush_all()? {
        disk.write(w.page_id, &w.data)?;
    }
    disk.write(0, pool.get_header_page().get_data())
}

#[test]
fn disk_miss() -> Result<(), Error> {
    let mut disk = Disk::new();
    let mut pool = open(&mut disk, 2)?;
    assert_eq!(fetch(&mut pool, &mut disk, 9999)?, None);
    let admission = pool.fetch_page(9999, None)?;
    assert!(admission.handle.is_none());
    assert!(admission.write_back.is_none());
    assert_eq!(pool.size(), 0);
    Ok(())
}

#[test]
fn zero_capacity_is_refused() {
    assert!(matches!(BufferPoolManager::open(None, 0), Err(Error::Value(_))));
    let mut broken = [0u8; PAGE_SIZE];
    broken[0] = 200;
    assert!(matches!(BufferPoolManager::open(Some(broken), 2), Err(Error::Value(_))));
}

#[test]
fn eviction_write_back() -> Result<(), Error> {
    let mut disk = Disk::new();
    let mut pool = open(&mut disk, 2)?;
    let one = create(&mut pool, &mut disk, 1)?.unwrap();
    let two = create(&mut pool, &mut disk, 2)?.unwrap();
    assert_eq!((one, two), (0, 1));
    assert!(!disk.has(1));
    // mutate page 1
    let mut tuple = Tuple::from_data(vec![0xAA, 0xBB]);
    assert!(pool.get_page_mut(one).insert_tuple(&mut tuple)?);
    assert_eq!(pool.get_page(one).get_status().level(), ExpelLevel::LOW);
    assert_eq!(pool.get_page(two).get_status().level(), ExpelLevel::NORMAL);
    // a third page makes page 2 go: it has not changed, so nothing is written
    let writes = disk.writes;
    let three = create(&mut pool, &mut disk, 3)?.unwrap();
    assert_eq!(three, 1);
    assert_eq!(disk.writes, writes);
    assert_eq!(pool.poll(2), None);
    assert_eq!(pool.poll(1), Some(0));
    assert!(!disk.has(1));
    // closing the pool writes the changed page
    close(pool, &mut disk)?;
    assert!(disk.has(1));
    // reopening and fetching page 1 observes the mutation
    let mut pool = open(&mut disk, 2)?;
    let one = fetch(&mut pool, &mut disk, 1)?.unwrap();
    let found = pool.get_page_mut(one).get_tuple(&RID::new(1, 0))?.unwrap();
    assert_eq!(found.get_data(), &[0xAA, 0xBB]);
    Ok(())
}

#[test]
fn changed_page_that_goes_is_written_first() -> Result<(), Error> {
    let mut disk = Disk::new();
    let mut pool = open(&mut disk, 1)?;
    let one = create(&mut pool, &mut disk, 1)?.unwrap();
    let mut tuple = Tuple::from_data(vec![1, 2, 3]);
    assert!(pool.get_page_mut(one).insert_tuple(&mut tuple)?);
    let image = pool.get_page(one).get_data().to_vec();
    let admission = pool.create_page(2, disk.has(2))?;
    assert_eq!(admission.handle, Some(0));
    let write_back = admission.write_back.unwrap();
    assert_eq!(write_back.page_id, 1);
    assert_eq!(write_back.data, image);
    disk.write(write_back.page_id, &write_back.data)?;
    // page 1 comes back from disk as it went
    let one = fetch(&mut pool, &mut disk, 1)?.unwrap();
    assert_eq!(pool.get_page(one).get_data(), &image[..]);
    assert_eq!(*pool.get_page(one).get_page_id(), 1);
    let found = pool.get_page_mut(one).get_tuple(&RID::new(1, 0))?.unwrap();
    assert_eq!(found.get_data(), &[1, 2, 3]);
    Ok(())
}

#[test]
fn create_collides_with_existing_pages() -> Result<(), Error> {
    let mut disk = Disk::new();
    let mut pool = open(&mut disk, 2)?;
    assert!(create(&mut pool, &mut disk, 1)?.is_some());
    // resident
    assert_eq!(create(&mut pool, &mut disk, 1)?, None);
    // on disk
    disk.write(5, &[0u8; PAGE_SIZE])?;
    assert_eq!(create(&mut pool, &mut disk, 5)?, None);
    // the file holds every page before page 5 too
    assert_eq!(create(&mut pool, &mut disk, 3)?, None);
    assert_eq!(create(&mut pool, &mut disk, 6)?, Some(1));
    assert_eq!(pool.size(), 2);
    assert!(matches!(pool.create_page(0, false), Err(Error::Value(_))));
    // the header page lies on disk after the open
    assert_eq!(create(&mut pool, &mut disk, 0)?, None);
    Ok(())
}

#[test]
fn created_page_is_empty_and_linked() -> Result<(), Error> {
    let mut disk = Disk::new();
    let mut pool = open(&mut disk, 2)?;
    let h = create(&mut pool, &mut disk, 7)?.unwrap();
    let page = pool.get_page_mut(h);
    assert_eq!(page.get_table_page_id()?, 7);
    assert_eq!(page.get_prev_page_id()?, 6);
    assert_eq!(page.get_next_page_id()?, 0);
    assert_eq!(page.get_first_tuple_rid()?, None);
    let h = create(&mut pool, &mut disk, 1)?.unwrap();
    assert_eq!(pool.get_page_mut(h).get_prev_page_id()?, 0);
    Ok(())
}

#[test]
fn fetch_refuses_bytes_that_are_no_table_page() -> Result<(), Error> {
    let mut disk = Disk::new();
    let mut pool = open(&mut disk, 2)?;
    disk.write(4, &[0x11u8; PAGE_SIZE])?;
    assert!(matches!(pool.fetch_page(4, disk.read(4)), Err(Error::Value(_))));
    assert_eq!(pool.size(), 0);
    // the header page is no table page
    assert!(matches!(pool.fetch_page(0, disk.read(0)), Err(Error::Value(_))));
    Ok(())
}

#[test]
fn delete_page_marks_the_page() -> Result<(), Error> {
    let mut disk = Disk::new();
    let mut pool = open(&mut disk, 2)?;
    let h = create(&mut pool, &mut disk, 1)?.unwrap();
    let Admission { handle, write_back } = pool.delete_page(1, disk.read(1))?;
    assert_eq!(handle, Some(h));
    assert!(write_back.is_none());
    assert!(pool.get_page(h).page_is_deleted()?);
    assert!(pool.get_page(h).get_status().deleted);
    assert!(pool.get_page(h).get_status().is_edited());
    let Admission { handle, write_back } = pool.delete_page(2, disk.read(2))?;
    assert_eq!(handle, None);
    assert!(write_back.is_none());
    // the mark goes to disk with the page
    close(pool, &mut disk)?;
    let mut pool = open(&mut disk, 2)?;
    let h = fetch(&mut pool, &mut disk, 1)?.unwrap();
    assert!(pool.get_page(h).page_is_deleted()?);
    Ok(())
}

#[test]
fn flush_page_gives_changed_pages_only() -> Result<(), Error> {
    let mut disk = Disk::new();
    let mut pool = open(&mut disk, 3)?;
    let one = create(&mut pool, &mut disk, 1)?.unwrap();
    create(&mut pool, &mut disk, 2)?.unwrap();
    assert!(pool.flush_page(1)?.is_none());
    pool.get_page_mut(one).set_next_page_id(2)?;
    let w = pool.flush_page(1)?.unwrap();
    assert_eq!(w.page_id, 1);
    assert_eq!(&w.data[..], pool.get_page(one).get_data());
    assert!(pool.flush_page(2)?.is_none());
    assert!(pool.flush_page(3)?.is_none());
    let all = pool.flush_all()?;
    assert_eq!(all.len(), 1);
    assert_eq!(all[0].page_id, 1);
    Ok(())
}

#[test]
fn catalog_survives_a_reopen() -> Result<(), Error> {
    let mut disk = Disk::new();
    let mut pool = open(&mut disk, 2)?;
    assert!(pool.get_header_page_mut().insert_record("users", 1)?);
    assert!(pool.get_header_page_mut().insert_record("orders", 2)?);
    close(pool, &mut disk)?;
    let pool = open(&mut disk, 2)?;
    assert_eq!(pool.get_header_page().get_record_count()?, 2);
    assert_eq!(pool.get_header_page().get_root_id("orders")?, Some(2));
    Ok(())
}

#[test]
fn resident_page_is_given_without_the_disk() -> Result<(), Error> {
    let mut disk = Disk::new();
    let mut pool = open(&mut disk, 2)?;
    let h = create(&mut pool, &mut disk, 1)?.unwrap();
    // whatever is handed in for a resident page is not looked at
    let admission = pool.fetch_page(1, Some([0x33u8; PAGE_SIZE]))?;
    assert_eq!(admission.handle, Some(h));
    assert!(admission.write_back.is_none());
    assert_eq!(pool.size(), 1);
    Ok(())
}

fn blank_table_page(page_id: u32) -> Vec<u8> {
    let page = toydb::table_page::TablePage::new(page_id, None, [0u8; PAGE_SIZE]).unwrap();
    page.get_data().to_vec()
}

#[test]
fn fetch_makes_the_unchanged_page_go() -> Result<(), Error> {
    let mut disk = Disk::new();
    let mut pool = open(&mut disk, 2)?;
    for page_id in 1..=3 {
        disk.write(page_id, &blank_table_page(page_id))?;
    }
    let one = fetch(&mut pool, &mut disk, 1)?.unwrap();
    let two = fetch(&mut pool, &mut disk, 2)?.unwrap();
    assert_eq!((one, two), (0, 1));
    let mut tuple = Tuple::from_data(vec![5, 6, 7]);
    assert!(pool.get_page_mut(one).insert_tuple(&mut tuple)?);
    let writes = disk.writes;
    // page 1 has changed and page 2 has not: page 2 goes, and nothing is written
    let admission = pool.fetch_page(3, disk.read(3))?;
    assert_eq!(admission.handle, Some(1));
    assert!(admission.write_back.is_none());
    assert_eq!(disk.writes, writes);
    assert_eq!(pool.poll(1), Some(0));
    assert_eq!(pool.poll(2), None);
    assert_eq!(pool.poll(3), Some(1));
    // now both pages have been used and page 1 has changed: page 3 goes
    let two = fetch(&mut pool, &mut disk, 2)?.unwrap();
    assert_eq!(two, 1);
    assert_eq!(pool.poll(3), None);
    // a changed page that goes is handed back for writing
    let mut tuple = Tuple::from_data(vec![1]);
    assert!(pool.get_page_mut(two).insert_tuple(&mut tuple)?);
    let image = pool.get_page(0).get_data().to_vec();
    let admission = pool.fetch_page(3, disk.read(3))?;
    assert_eq!(admission.handle, Some(0));
    let write_back = admission.write_back.unwrap();
    assert_eq!(write_back.page_id, 1);
    assert_eq!(write_back.data, image);
    Ok(())
}
