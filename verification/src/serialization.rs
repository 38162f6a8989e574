use crate::codec::read_u32_le;
use crate::header_page::{catalog_of, catalog_wf, HeaderPage};
use crate::page::PAGE_SIZE;
use crate::table_layout::decode;
use crate::table_page::TablePage;
use vstd::prelude::*;

verus! {

/// A value that goes to bytes and comes back from them.
pub trait ToVecAndByVec<T> {
    /// The bytes that stand for `t`.
    fn to_vec(t: &T) -> Vec<u8>;

    /// The value that the bytes stand for, if they stand for one.
    fn by_vec(data: &Vec<u8>) -> Option<T>;
}

/// The bytes as a page, if there are as many as a page holds.
pub fn page_bytes(data: &[u8]) -> (r: Option<[u8; PAGE_SIZE]>)
    ensures
        r is Some <==> data@.len() == PAGE_SIZE,
        r matches Some(bytes) ==> bytes@ == data@,
{
    if data.len() != PAGE_SIZE {
        return None;
    }
    let mut bytes = [0u8; PAGE_SIZE];
    let mut i: usize = 0;
    while i < PAGE_SIZE
        invariant
            i <= PAGE_SIZE,
            data@.len() == PAGE_SIZE,
            bytes@.len() == PAGE_SIZE,
            forall|j: int| 0 <= j < i ==> #[trigger] bytes@[j] == data@[j],
        decreases PAGE_SIZE - i,
    {
        bytes[i] = data[i];
        i += 1;
    }
    assert(bytes@ =~= data@);
    Some(bytes)
}

impl ToVecAndByVec<HeaderPage> for HeaderPage {
    /// The bytes of the page.
    fn to_vec(t: &HeaderPage) -> (r: Vec<u8>)
        ensures
            r@ == t.image(),
    {
        vstd::slice::slice_to_vec(t.get_data())
    }

    /// The header page that the bytes hold: they must be a page that holds a
    /// catalog.
    fn by_vec(data: &Vec<u8>) -> (r: Option<HeaderPage>)
        ensures
            r is Some <==> data@.len() == PAGE_SIZE && catalog_wf(catalog_of(data@)),
            r matches Some(h) ==> h.wf() && h.image() == data@,
    {
        match page_bytes(data.as_slice()) {
            Some(bytes) => match HeaderPage::load(bytes) {
                Ok(header_page) => Some(header_page),
                Err(_) => None,
            },
            None => None,
        }
    }
}

impl ToVecAndByVec<TablePage> for TablePage {
    /// The bytes of the page.
    fn to_vec(t: &TablePage) -> (r: Vec<u8>)
        ensures
            r@ == t.image(),
    {
        vstd::slice::slice_to_vec(t.get_data())
    }

    /// The table page that the bytes hold, under the identifier that they
    /// carry: they must be a page that obeys the layout rules.
    fn by_vec(data: &Vec<u8>) -> (r: Option<TablePage>)
        ensures
            r is Some <==> data@.len() == PAGE_SIZE && decode(data@).wf(),
            r matches Some(p) ==> p.wf() && p.image() == data@ && p.spec_page_id() == decode(
                data@,
            ).page_id,
    {
        match page_bytes(data.as_slice()) {
            Some(bytes) => {
                let page_id = read_u32_le(data.as_slice(), 0);
                match TablePage::load(page_id, bytes) {
                    Ok(table_page) => Some(table_page),
                    Err(_) => None,
                }
            },
            None => None,
        }
    }
}

} // verus!
