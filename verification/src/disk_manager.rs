use crate::error::{value_error, Error};
use crate::page::PAGE_SIZE;
use vstd::prelude::*;

verus! {

/// Where page `page_id` begins in the database file: pages lie end to end.
pub open spec fn spec_page_offset(page_id: u32) -> int {
    page_id * PAGE_SIZE
}

/// Whether a file of `file_size` bytes holds the whole of page `page_id`.
pub open spec fn spec_have_page(page_id: u32, file_size: u64) -> bool {
    (page_id + 1) * PAGE_SIZE <= file_size
}

/// Where page `page_id` begins in the database file.
pub fn page_offset(page_id: u32) -> (r: u64)
    ensures
        r == spec_page_offset(page_id),
{
    assert(page_id * PAGE_SIZE <= 0xffff_ffff * 4096) by (nonlinear_arith)
        requires
            page_id <= 0xffff_ffff,
            PAGE_SIZE == 4096,
    ;
    page_id as u64 * PAGE_SIZE as u64
}

/// Whether a file of `file_size` bytes holds the whole of page `page_id`. A
/// read of a page that the file does not hold is a miss, not an error.
pub fn have_page(page_id: u32, file_size: u64) -> (r: bool)
    ensures
        r == spec_have_page(page_id, file_size),
{
    let offset = page_offset(page_id);
    offset + PAGE_SIZE as u64 <= file_size
}

/// How many bytes a read of page `page_id` gives: the whole page, or
/// nothing when the file does not hold it.
pub fn read_len(page_id: u32, file_size: u64) -> (r: usize)
    ensures
        r == (if spec_have_page(page_id, file_size) {
            PAGE_SIZE
        } else {
            0
        }),
{
    if have_page(page_id, file_size) {
        PAGE_SIZE
    } else {
        0
    }
}

/// Whether bytes of the given length can be written as a page: a page is
/// written whole or not at all.
pub fn check_page_data(len: usize) -> (r: Result<(), Error>)
    ensures
        r is Ok <==> len == PAGE_SIZE,
        r is Err ==> r matches Err(Error::Value(_)),
{
    if len != PAGE_SIZE {
        return Err(value_error("page size was lass than PAGE_SIZE"));
    }
    Ok(())
}

} // verus!
