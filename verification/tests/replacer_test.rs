use std::path::Path;
use toydb::clock_replacer::{ClockReplacer, ClockStatus, ExpelLevel};
use toydb::error::Error;
use toydb::page::PAGE_SIZE;
use toydb::table_page::TablePage;
use toydb::tuple::Tuple;

/// Brings the page into the replacer unless it is resident.
fn touch(clock_replacer: &mut ClockReplacer, page_id: u32) -> Result<(), Error> {
    if clock_replacer.poll(page_id)?.is_none() {
        let page = TablePage::new(page_id, None, [0u8; PAGE_SIZE])?;
        clock_replacer.push(page)?;
    }
    Ok(())
}

#[test]
fn check_replacer_test() -> Result<(), Error> {
    let mut clock_replacer = ClockReplacer::new(3)?;
    let list = vec![2, 3, 2, 1, 5, 2, 4, 5, 3, 2, 5, 2];
    for page_id in list {
        touch(&mut clock_replacer, page_id as u32)?;

        if page_id == 4 {
            let at = clock_replacer.poll(4)?.unwrap();
            clock_replacer.get_mut(at).get_status_mut().used();
        }
    }
    assert_eq!(clock_replacer.size(), 3);
    Ok(())
}

#[test]
fn check_file_path() -> Result<(), Error> {
    let path = Path::new("D:\\aaa");
    let path_buf = path.join(Path::new("x.txt"));
    let new_path = path_buf.as_path();
    println!("{:?}", new_path);
    Ok(())
}

#[test]
fn replacer_refuses_zero_capacity() {
    assert!(matches!(ClockReplacer::new(0), Err(Error::Value(_))));
    assert!(ClockReplacer::new(1).is_ok());
}

#[test]
fn status_levels() {
    let mut status = ClockStatus::empty();
    assert_eq!(status.level(), ExpelLevel::HIGH);
    status.used();
    assert_eq!(status.level(), ExpelLevel::NORMAL);
    status.edited();
    assert_eq!(status.level(), ExpelLevel::LOW);
    assert!(status.is_edited());
    status.un_used();
    assert_eq!(status.level(), ExpelLevel::MEDIUM);
    assert_eq!(ExpelLevel::from(&status), ExpelLevel::MEDIUM);
    assert!(!status.get_removed());
    status.set_removed(true);
    assert!(status.get_removed());
    status.set_deleted(true);
    assert!(status.deleted);
    assert_eq!(
        status,
        ClockStatus { used: false, edited: true, deleted: true, removed: true }
    );
}

fn page_with(page_id: u32, used: bool, edited: bool) -> TablePage {
    let mut page = TablePage::new(page_id, None, [0u8; PAGE_SIZE]).unwrap();
    if edited {
        page.get_status_mut().edited();
    }
    if !used {
        page.get_status_mut().un_used();
    }
    page
}

#[test]
fn push_below_capacity_evicts_nothing() -> Result<(), Error> {
    let mut replacer = ClockReplacer::new(2)?;
    assert!(replacer.push(page_with(1, true, true))?.is_none());
    assert!(replacer.push(page_with(2, true, true))?.is_none());
    assert_eq!(replacer.size(), 2);
    assert_eq!(replacer.poll(1)?, Some(0));
    assert_eq!(replacer.poll(2)?, Some(1));
    assert_eq!(replacer.poll(3)?, None);
    Ok(())
}

#[test]
fn high_goes_before_every_other_level() -> Result<(), Error> {
    let mut replacer = ClockReplacer::new(4)?;
    replacer.push(page_with(1, true, true))?; // LOW
    replacer.push(page_with(2, false, true))?; // MEDIUM
    replacer.push(page_with(3, true, false))?; // NORMAL
    replacer.push(page_with(4, false, false))?; // HIGH
    let gone = replacer.push(page_with(5, true, true))?.unwrap();
    assert_eq!(*gone.get_page_id(), 4);
    // the new page took the place of the page that went
    assert_eq!(replacer.poll(5)?, Some(3));
    // NORMAL goes next, then MEDIUM
    let gone = replacer.push(page_with(6, true, true))?.unwrap();
    assert_eq!(*gone.get_page_id(), 3);
    let gone = replacer.push(page_with(7, true, true))?.unwrap();
    assert_eq!(*gone.get_page_id(), 2);
    assert_eq!(replacer.size(), 4);
    Ok(())
}

#[test]
fn first_page_of_a_level_goes() -> Result<(), Error> {
    let mut replacer = ClockReplacer::new(3)?;
    replacer.push(page_with(1, true, true))?;
    replacer.push(page_with(2, true, false))?;
    replacer.push(page_with(3, true, false))?;
    let gone = replacer.push(page_with(4, true, false))?.unwrap();
    assert_eq!(*gone.get_page_id(), 2);
    Ok(())
}

#[test]
fn all_low_pages_are_swept_once() -> Result<(), Error> {
    let mut replacer = ClockReplacer::new(2)?;
    replacer.push(page_with(1, true, true))?;
    replacer.push(page_with(2, true, true))?;
    let gone = replacer.push(page_with(3, true, true))?.unwrap();
    assert_eq!(*gone.get_page_id(), 1);
    // the page that went was swept too
    assert_eq!(gone.get_status().level(), ExpelLevel::MEDIUM);
    // the sweep cleared the flag of the page that stayed
    let stayed = replacer.poll(2)?.unwrap();
    assert_eq!(replacer.get(stayed).get_status().level(), ExpelLevel::MEDIUM);
    let new = replacer.poll(3)?.unwrap();
    assert_eq!(new, 0);
    assert_eq!(replacer.get(new).get_status().level(), ExpelLevel::LOW);
    Ok(())
}

#[test]
fn poll_leaves_the_flags_alone_and_skips_removed_pages() -> Result<(), Error> {
    let mut replacer = ClockReplacer::new(2)?;
    replacer.push(page_with(1, false, false))?;
    let at = replacer.poll(1)?.unwrap();
    assert_eq!(replacer.get(at).get_status().level(), ExpelLevel::HIGH);
    replacer.get_mut(at).get_status_mut().set_removed(true);
    assert_eq!(replacer.poll(1)?, None);
    Ok(())
}

#[test]
fn flush_all_gives_the_changed_pages() -> Result<(), Error> {
    let mut replacer = ClockReplacer::new(3)?;
    replacer.push(page_with(1, true, false))?;
    let mut page = TablePage::new(2, None, [0u8; PAGE_SIZE])?;
    let mut tuple = Tuple::from_data(vec![7, 8, 9]);
    assert!(page.insert_tuple(&mut tuple)?);
    let image = page.get_data().to_vec();
    replacer.push(page)?;
    replacer.push(page_with(3, false, true))?;
    let out = replacer.flush_all();
    assert_eq!(out.len(), 2);
    assert_eq!(out[0].page_id, 2);
    assert_eq!(out[0].data, image);
    assert_eq!(out[1].page_id, 3);
    assert_eq!(out[1].data.len(), PAGE_SIZE);
    Ok(())
}
