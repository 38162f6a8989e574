use toydb::codec::{encode_u32_le, read_u32_le};
use toydb::disk_manager::{check_page_data, have_page, page_offset, read_len};
use toydb::error::{value_error, Error};
use toydb::header_page::HeaderPage;
use toydb::page::{Page, PAGE_SIZE};
use toydb::serialization::{page_bytes, ToVecAndByVec};
use toydb::table_page::TablePage;
use toydb::tuple::{Tuple, RID};

#[test]
fn page_size_is_a_power_of_two() {
    assert_eq!(PAGE_SIZE, 4096);
}

#[test]
fn new_page_is_clean() -> Result<(), Error> {
    let page = Page::new(5, [3u8; PAGE_SIZE])?;
    assert_eq!(*page.get_page_id(), 5);
    assert_eq!(*page.get_pin_count(), 0);
    assert!(!*page.is_dirty());
    assert_eq!(page.as_bytes(), &[3u8; PAGE_SIZE][..]);
    Ok(())
}

#[test]
fn write_then_read() -> Result<(), Error> {
    let mut page = Page::new(1, [0u8; PAGE_SIZE])?;
    assert_eq!(page.write_data(&[1, 2, 3, 4, 5], 10, 5)?, 5);
    let mut buf = [9u8; 8];
    assert_eq!(page.read_data(&mut buf, 8, 8)?, 8);
    assert_eq!(buf, [0, 0, 1, 2, 3, 4, 5, 0]);
    // fewer bytes than the buffers hold
    assert_eq!(page.write_data(&[7, 7, 7], 0, 2)?, 2);
    assert_eq!(&page.as_bytes()[0..3], &[7, 7, 0]);
    let mut buf = [9u8; 4];
    assert_eq!(page.read_data(&mut buf, 10, 2)?, 2);
    assert_eq!(buf, [1, 2, 9, 9]);
    Ok(())
}

#[test]
fn transfers_are_clamped() -> Result<(), Error> {
    let mut page = Page::new(1, [0u8; PAGE_SIZE])?;
    // more asked for than the source holds
    assert_eq!(page.write_data(&[1, 2, 3], 100, 32)?, 3);
    // at the end of the page
    assert_eq!(page.write_data(&[4, 5, 6, 7], PAGE_SIZE - 2, 4)?, 2);
    assert_eq!(&page.as_bytes()[PAGE_SIZE - 2..], &[4, 5]);
    assert_eq!(page.write_data(&[8], PAGE_SIZE, 1)?, 0);
    let mut buf = [0u8; 4];
    assert_eq!(page.read_data(&mut buf, PAGE_SIZE - 1, 4)?, 1);
    assert_eq!(buf, [5, 0, 0, 0]);
    assert_eq!(page.read_data(&mut buf, PAGE_SIZE, usize::MAX)?, 0);
    // a length that would overflow the offset
    assert_eq!(page.read_data(&mut buf, 100, usize::MAX)?, 4);
    assert_eq!(buf, [1, 2, 3, 0]);
    Ok(())
}

#[test]
fn offset_out_of_range() -> Result<(), Error> {
    let mut page = Page::new(1, [0u8; PAGE_SIZE])?;
    let mut buf = [1u8; 2];
    assert!(matches!(page.read_data(&mut buf, PAGE_SIZE + 1, 1), Err(Error::Value(_))));
    assert_eq!(buf, [1, 1]);
    assert!(matches!(page.write_data(&buf, PAGE_SIZE + 1, 1), Err(Error::Value(_))));
    assert!(matches!(page.write_data(&buf, usize::MAX, 1), Err(Error::Value(_))));
    Ok(())
}

#[test]
fn numbers_are_little_endian() -> Result<(), Error> {
    let mut page = Page::new(1, [0u8; PAGE_SIZE])?;
    page.put_u32(20, 0x0A0B0C0D);
    assert_eq!(&page.as_bytes()[20..24], &[0x0D, 0x0C, 0x0B, 0x0A]);
    assert_eq!(page.get_u32(20), 0x0A0B0C0D);
    page.put_u32(PAGE_SIZE - 4, u32::MAX);
    assert_eq!(page.get_u32(PAGE_SIZE - 4), u32::MAX);
    assert_eq!(encode_u32_le(4096), [0, 0x10, 0, 0]);
    assert_eq!(encode_u32_le(0x8000_0001), [1, 0, 0, 0x80]);
    assert_eq!(read_u32_le(&[9, 1, 2, 3, 4], 1), 0x04030201);
    page.put_byte(7, 0xAB);
    assert_eq!(page.get_byte(7), 0xAB);
    Ok(())
}

#[test]
fn bytes_move_within_the_page() -> Result<(), Error> {
    let mut page = Page::new(1, [0u8; PAGE_SIZE])?;
    page.put_bytes(10, &[1, 2, 3, 4, 5, 6], 6);
    // overlapping, upwards
    page.copy_within(10, 16, 12);
    assert_eq!(&page.as_bytes()[10..18], &[1, 2, 1, 2, 3, 4, 5, 6]);
    // overlapping, downwards
    page.copy_within(12, 18, 9);
    assert_eq!(&page.as_bytes()[9..18], &[1, 2, 3, 4, 5, 6, 4, 5, 6]);
    assert_eq!(page.get_bytes(9, 3), vec![1, 2, 3]);
    page.copy_within(5, 5, 100);
    assert_eq!(page.as_bytes()[100], 0);
    Ok(())
}

#[test]
fn tuples_and_rids() {
    let mut rid = RID::new(3, 4);
    assert_eq!(*rid.get_page_id(), 3);
    assert_eq!(*rid.get_slot_num(), 4);
    assert_eq!(rid, RID::from(3, 4));
    rid.set(5, 6);
    assert_eq!(rid, RID::new(5, 6));

    let mut tuple = Tuple::empty();
    assert_eq!(tuple.get_length(), 0);
    assert_eq!(tuple.get_rid(), None);
    assert!(tuple.set_rid(RID::new(1, 2)));
    // the first identifier stays
    assert!(!tuple.set_rid(RID::new(8, 9)));
    assert_eq!(tuple.get_rid(), Some(&RID::new(1, 2)));
    assert!(!tuple.is_allocated());
    tuple.allocated();
    assert!(tuple.is_allocated());

    let mut tuple = Tuple::from_data(vec![1, 2, 3]);
    assert_eq!(tuple.get_length(), 3);
    assert_eq!(tuple.get_data(), &[1, 2, 3]);
    tuple.get_data_mut()[1] = 9;
    assert_eq!(tuple.get_data(), &[1, 9, 3]);
    tuple.place(RID::new(4, 4));
    tuple.place(RID::new(5, 5));
    assert_eq!(tuple.get_rid(), Some(&RID::new(5, 5)));
    assert!(tuple.is_allocated());
}

#[test]
fn error_messages() {
    let e = value_error("offset is out of range");
    assert!(matches!(e, Error::Value(_)));
    assert_eq!(e.message(), "offset is out of range");
    assert_eq!(Error::Io(String::from("disk")).message(), "disk");
    assert_eq!(Error::Lock(String::from("held")).message(), "held");
}

#[test]
fn pages_lie_end_to_end() {
    assert_eq!(page_offset(0), 0);
    assert_eq!(page_offset(1), 4096);
    assert_eq!(page_offset(9999), 40955904);
    assert_eq!(page_offset(u32::MAX), 4294967295u64 * 4096);
    assert!(!have_page(0, 0));
    assert!(!have_page(0, 4095));
    assert!(have_page(0, 4096));
    assert!(!have_page(1, 4096));
    assert!(!have_page(1, 8191));
    assert!(have_page(1, 8192));
    assert!(have_page(1, 10000));
    assert!(!have_page(9999, 8192));
    assert_eq!(read_len(1, 8191), 0);
    assert_eq!(read_len(1, 8192), 4096);
    assert!(check_page_data(4096).is_ok());
    assert!(matches!(check_page_data(4095), Err(Error::Value(_))));
    assert!(matches!(check_page_data(4097), Err(Error::Value(_))));
    assert!(matches!(check_page_data(0), Err(Error::Value(_))));
}

#[test]
fn pages_go_to_bytes_and_back() -> Result<(), Error> {
    let mut header = HeaderPage::new([0u8; PAGE_SIZE])?;
    assert!(header.insert_record("t", 5)?);
    let bytes = HeaderPage::to_vec(&header);
    assert_eq!(bytes.len(), PAGE_SIZE);
    assert_eq!(&bytes[..], header.get_data());
    let back = HeaderPage::by_vec(&bytes).unwrap();
    assert_eq!(back.get_root_id("t")?, Some(5));
    assert!(HeaderPage::by_vec(&bytes[1..].to_vec()).is_none());

    let mut page = TablePage::new(9, None, [0u8; PAGE_SIZE])?;
    let mut tuple = Tuple::from_data(vec![4, 5]);
    assert!(page.insert_tuple(&mut tuple)?);
    let bytes = TablePage::to_vec(&page);
    let mut back = TablePage::by_vec(&bytes).unwrap();
    assert_eq!(*back.get_page_id(), 9);
    assert_eq!(back.get_tuple(&RID::new(9, 0))?.unwrap().get_data(), &[4, 5]);
    assert!(TablePage::by_vec(&vec![0u8; PAGE_SIZE]).is_none());
    assert!(TablePage::by_vec(&vec![0u8; 10]).is_none());

    assert!(page_bytes(&[1, 2, 3]).is_none());
    assert_eq!(page_bytes(&[7u8; PAGE_SIZE]), Some([7u8; PAGE_SIZE]));
    Ok(())
}
