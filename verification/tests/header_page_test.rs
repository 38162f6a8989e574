use toydb::error::Error;
use toydb::header_page::{HeaderPage, MAX_RECORDS};
use toydb::page::PAGE_SIZE;

#[test]
fn header_catalog_round_trip() -> Result<(), Error> {
    let mut header = HeaderPage::new([0u8; PAGE_SIZE])?;
    assert!(header.insert_record("a", 1)?);
    assert!(header.insert_record("b", 2)?);
    assert!(header.insert_record("c", 3)?);
    assert_eq!(header.get_record_count()?, 3);
    assert_eq!(header.get_root_id("b")?, Some(2));
    assert!(header.update_record("a", 4)?);
    assert_eq!(header.get_root_id("a")?, Some(4));
    assert!(header.delete_record("a")?);
    assert_eq!(header.get_record_count()?, 2);
    assert_eq!(header.get_root_id("a")?, None);
    assert_eq!(header.get_root_id("b")?, Some(2));
    assert_eq!(header.get_root_id("c")?, Some(3));
    Ok(())
}

#[test]
fn header_layout_is_exact() -> Result<(), Error> {
    let mut header = HeaderPage::new([0xEEu8; PAGE_SIZE])?;
    assert_eq!(header.get_record_count()?, 0);
    assert!(header.insert_record("ab", 0x0102_0304)?);
    let bytes = header.get_data();
    assert_eq!(&bytes[0..4], &[1, 0, 0, 0]);
    assert_eq!(&bytes[4..6], b"ab");
    assert_eq!(&bytes[6..36], &[0u8; 30]);
    assert_eq!(&bytes[36..40], &[4, 3, 2, 1]);
    assert_eq!(bytes[40], 0xEE);
    assert!(header.insert_record("cd", 7)?);
    let bytes = header.get_data();
    assert_eq!(&bytes[0..4], &[2, 0, 0, 0]);
    assert_eq!(&bytes[40..42], b"cd");
    assert_eq!(&bytes[72..76], &[7, 0, 0, 0]);
    // the update writes the root id, not the name
    assert!(header.update_record("ab", 9)?);
    let bytes = header.get_data();
    assert_eq!(&bytes[4..6], b"ab");
    assert_eq!(&bytes[36..40], &[9, 0, 0, 0]);
    // the delete moves the records behind up
    assert!(header.delete_record("ab")?);
    let bytes = header.get_data();
    assert_eq!(&bytes[0..4], &[1, 0, 0, 0]);
    assert_eq!(&bytes[4..6], b"cd");
    assert_eq!(&bytes[36..40], &[7, 0, 0, 0]);
    assert_eq!(*header.get_page_id(), 0);
    Ok(())
}

#[test]
fn long_names() -> Result<(), Error> {
    let mut header = HeaderPage::new([0u8; PAGE_SIZE])?;
    let name32 = "abcdefghijklmnopqrstuvwxyz012345";
    let name33 = "abcdefghijklmnopqrstuvwxyz0123456";
    assert_eq!(name32.len(), 32);
    assert_eq!(name33.len(), 33);
    assert!(!header.insert_record(name33, 1)?);
    assert_eq!(header.get_record_count()?, 0);
    assert!(header.insert_record(name32, 2)?);
    assert_eq!(header.get_root_id(name32)?, Some(2));
    assert_eq!(header.get_root_id(name33)?, None);
    assert!(!header.update_record(name33, 3)?);
    assert!(!header.delete_record(name33)?);
    // a name is counted in bytes
    let wide = "ääääääääääääääääa";
    assert_eq!(wide.len(), 33);
    assert!(!header.insert_record(wide, 4)?);
    Ok(())
}

#[test]
fn duplicate_names_are_refused() -> Result<(), Error> {
    let mut header = HeaderPage::new([0u8; PAGE_SIZE])?;
    assert!(header.insert_record("t", 1)?);
    assert!(!header.insert_record("t", 2)?);
    assert_eq!(header.get_record_count()?, 1);
    assert_eq!(header.get_root_id("t")?, Some(1));
    // a name that differs only in padding is the same name
    assert!(!header.insert_record("t\0", 3)?);
    assert_eq!(header.get_root_id("t\0\0")?, Some(1));
    // a prefix is another name
    assert!(header.insert_record("tt", 4)?);
    assert_eq!(header.get_root_id("t")?, Some(1));
    assert_eq!(header.get_root_id("tt")?, Some(4));
    Ok(())
}

#[test]
fn missing_records() -> Result<(), Error> {
    let mut header = HeaderPage::new([0u8; PAGE_SIZE])?;
    assert!(!header.delete_record("x")?);
    assert!(!header.update_record("x", 1)?);
    assert_eq!(header.get_root_id("x")?, None);
    assert!(header.insert_record("y", 1)?);
    assert!(!header.delete_record("x")?);
    assert!(!header.update_record("x", 1)?);
    assert_eq!(header.get_root_id("x")?, None);
    Ok(())
}

#[test]
fn name_written_over_stale_bytes_is_padded() -> Result<(), Error> {
    let mut header = HeaderPage::new([0u8; PAGE_SIZE])?;
    assert!(header.insert_record("abc", 1)?);
    assert!(header.insert_record("zzzzzz", 2)?);
    assert!(header.delete_record("abc")?);
    assert!(header.insert_record("q", 3)?);
    assert_eq!(header.get_root_id("q")?, Some(3));
    assert_eq!(header.get_root_id("zzzzzz")?, Some(2));
    assert_eq!(header.get_record_count()?, 2);
    Ok(())
}

#[test]
fn full_header_page() -> Result<(), Error> {
    let mut header = HeaderPage::new([0u8; PAGE_SIZE])?;
    for i in 0..MAX_RECORDS {
        assert!(header.insert_record(&format!("table{}", i), i as u32)?);
    }
    assert_eq!(MAX_RECORDS, 113);
    assert_eq!(header.get_record_count()?, 113);
    let before = header.get_data().to_vec();
    assert!(!header.insert_record("one more", 0)?);
    assert_eq!(header.get_data(), &before[..]);
    assert_eq!(header.get_root_id("table112")?, Some(112));
    assert!(header.delete_record("table0")?);
    assert!(header.insert_record("one more", 500)?);
    assert_eq!(header.get_root_id("one more")?, Some(500));
    assert_eq!(header.get_root_id("table57")?, Some(57));
    Ok(())
}

#[test]
fn load_takes_the_catalog_that_was_written() -> Result<(), Error> {
    let mut header = HeaderPage::new([0u8; PAGE_SIZE])?;
    assert!(header.insert_record("a", 1)?);
    assert!(header.insert_record("b", 2)?);
    let mut image = [0u8; PAGE_SIZE];
    image.copy_from_slice(header.get_data());
    let loaded = HeaderPage::load(image)?;
    assert_eq!(loaded.get_record_count()?, 2);
    assert_eq!(loaded.get_root_id("a")?, Some(1));
    assert_eq!(loaded.get_root_id("b")?, Some(2));
    // a page of zero bytes is an empty catalog
    assert_eq!(HeaderPage::load([0u8; PAGE_SIZE])?.get_record_count()?, 0);
    Ok(())
}

#[test]
fn load_refuses_broken_catalogs() {
    let mut image = [0u8; PAGE_SIZE];
    image[0] = 114;
    assert!(matches!(HeaderPage::load(image), Err(Error::Value(_))));
    let mut image = [0u8; PAGE_SIZE];
    image[0] = 2;
    image[4] = b'a';
    image[40] = b'a';
    assert!(matches!(HeaderPage::load(image), Err(Error::Value(_))));
    image[41] = b'b';
    assert!(HeaderPage::load(image).is_ok());
}
