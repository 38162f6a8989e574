use crate::codec::{
    encode_u32_le, lemma_put_u32_le, lemma_splice, put_u32_le, read_u32_le, splice, spliced,
    stored, u32_le,
};
use crate::error::{value_error, Error};
use vstd::prelude::*;

verus! {

/// The size of every page, in bytes.
pub const PAGE_SIZE: usize = 4096;

/// A fixed-size byte buffer with its identifier, a pin count and a dirty flag.
pub struct Page {
    data: [u8; PAGE_SIZE],
    page_id: u32,
    pin_count: u32,
    is_dirty: bool,
}

impl View for Page {
    type V = Seq<u8>;

    /// The bytes of the page.
    closed spec fn view(&self) -> Seq<u8> {
        self.data@
    }
}

/// How many bytes a bounded copy moves: never more than asked for, than the
/// other buffer holds, or than the page has left from `offset` on.
pub open spec fn transfer_len(offset: int, len: int, other: int) -> int {
    let a = if len < other {
        len
    } else {
        other
    };
    if a < PAGE_SIZE - offset {
        a
    } else {
        PAGE_SIZE - offset
    }
}

impl Page {
    /// The identifier of the page.
    pub closed spec fn id(&self) -> u32 {
        self.page_id
    }

    /// The pin count of the page.
    pub closed spec fn pins(&self) -> u32 {
        self.pin_count
    }

    /// The dirty flag of the page.
    pub closed spec fn dirty(&self) -> bool {
        self.is_dirty
    }

    /// Every page holds `PAGE_SIZE` bytes.
    pub proof fn lemma_len(&self)
        ensures
            self@.len() == PAGE_SIZE,
    {
    }

    /// A page over the given bytes: unpinned and clean.
    pub fn new(page_id: u32, data: [u8; PAGE_SIZE]) -> (r: Result<Page, Error>)
        ensures
            r matches Ok(p) && p@ == data@ && p@.len() == PAGE_SIZE && p.id() == page_id
                && p.pins() == 0 && !p.dirty(),
    {
        Ok(Page { data, page_id, pin_count: 0, is_dirty: false })
    }

    /// Copies bytes of the page, from `offset` on, to the front of `data`, and
    /// returns how many. Fails when `offset` lies beyond the page.
    pub fn read_data(&self, data: &mut [u8], offset: usize, len: usize) -> (r: Result<
        usize,
        Error,
    >)
        ensures
            final(data)@.len() == old(data)@.len(),
            offset > PAGE_SIZE <==> r is Err,
            r is Err ==> (r matches Err(Error::Value(_))) && final(data)@ == old(data)@,
            r matches Ok(n) ==> n == transfer_len(offset as int, len as int, old(data)@.len() as int)
                && spliced(old(data)@, final(data)@, 0, self@.subrange(offset as int, offset + n)),
    {
        if offset > PAGE_SIZE {
            return Err(value_error("offset is out of range"));
        }
        let mut n: usize = if len < data.len() {
            len
        } else {
            data.len()
        };
        if n > PAGE_SIZE - offset {
            n = PAGE_SIZE - offset;
        }
        let mut i: usize = 0;
        while i < n
            invariant
                i <= n,
                offset + n <= PAGE_SIZE,
                n <= data@.len(),
                data@.len() == old(data)@.len(),
                forall|j: int| 0 <= j < i ==> #[trigger] data@[j] == self.data@[offset + j],
                forall|j: int| i <= j < data@.len() ==> data@[j] == old(data)@[j],
            decreases n - i,
        {
            data[i] = self.data[offset + i];
            i += 1;
        }
        proof {
            assert(data@ =~= splice(old(data)@, 0, self@.subrange(offset as int, offset + n)));
            lemma_splice(old(data)@, 0, self@.subrange(offset as int, offset + n));
        }
        Ok(n)
    }

    /// Copies bytes from the front of `data` into the page, from `offset` on,
    /// and returns how many. Fails when `offset` lies beyond the page.
    pub fn write_data(&mut self, data: &[u8], offset: usize, len: usize) -> (r: Result<
        usize,
        Error,
    >)
        ensures
            final(self).id() == old(self).id(),
            final(self).pins() == old(self).pins(),
            final(self).dirty() == old(self).dirty(),
            final(self)@.len() == PAGE_SIZE,
            offset > PAGE_SIZE <==> r is Err,
            r is Err ==> (r matches Err(Error::Value(_))) && final(self)@ == old(self)@,
            r matches Ok(n) ==> n == transfer_len(offset as int, len as int, data@.len() as int)
                && spliced(old(self)@, final(self)@, offset as int, data@.subrange(0, n as int)),
    {
        if offset > PAGE_SIZE {
            return Err(value_error("offset is out of range"));
        }
        let mut n: usize = if len < data.len() {
            len
        } else {
            data.len()
        };
        if n > PAGE_SIZE - offset {
            n = PAGE_SIZE - offset;
        }
        self.put_bytes(offset, data, n);
        Ok(n)
    }

    /// The identifier of the page.
    pub fn get_page_id(&self) -> (r: &u32)
        ensures
            *r == self.id(),
    {
        &self.page_id
    }

    /// How many users hold the page pinned.
    pub fn get_pin_count(&self) -> (r: &u32)
        ensures
            *r == self.pins(),
    {
        &self.pin_count
    }

    /// Whether the page is marked dirty.
    pub fn is_dirty(&self) -> (r: &bool)
        ensures
            *r == self.dirty(),
    {
        &self.is_dirty
    }

    /// The bytes of the page.
    pub fn as_bytes(&self) -> (r: &[u8])
        ensures
            r@ == self@,
            r@.len() == PAGE_SIZE,
    {
        self.data.as_slice()
    }

    /// The byte at `at`.
    pub fn get_byte(&self, at: usize) -> (r: u8)
        requires
            at < PAGE_SIZE,
        ensures
            r == self@[at as int],
    {
        self.data[at]
    }

    /// Stores `v` in the byte at `at`.
    pub fn put_byte(&mut self, at: usize, v: u8)
        requires
            at < PAGE_SIZE,
        ensures
            final(self).id() == old(self).id(),
            final(self).pins() == old(self).pins(),
            final(self).dirty() == old(self).dirty(),
            spliced(old(self)@, final(self)@, at as int, seq![v]),
    {
        self.data[at] = v;
        proof {
            assert(self.data@ =~= splice(old(self).data@, at as int, seq![v]));
            lemma_splice(old(self).data@, at as int, seq![v]);
        }
    }

    /// The number stored little-endian in the four bytes from `at` on.
    pub fn get_u32(&self, at: usize) -> (r: u32)
        requires
            at + 4 <= PAGE_SIZE,
        ensures
            r == u32_le(self@, at as int),
    {
        read_u32_le(self.data.as_slice(), at)
    }

    /// Stores `v` little-endian in the four bytes from `at` on.
    pub fn put_u32(&mut self, at: usize, v: u32)
        requires
            at + 4 <= PAGE_SIZE,
        ensures
            final(self).id() == old(self).id(),
            final(self).pins() == old(self).pins(),
            final(self).dirty() == old(self).dirty(),
            final(self)@.len() == PAGE_SIZE,
            stored(old(self)@, final(self)@, at as int, v),
    {
        let bytes = encode_u32_le(v);
        self.data[at] = bytes[0];
        self.data[at + 1] = bytes[1];
        self.data[at + 2] = bytes[2];
        self.data[at + 3] = bytes[3];
        proof {
            assert(self.data@ =~= put_u32_le(old(self).data@, at as int, v));
            lemma_put_u32_le(old(self).data@, at as int, v);
        }
    }

    /// A copy of the `len` bytes from `at` on.
    pub fn get_bytes(&self, at: usize, len: usize) -> (r: Vec<u8>)
        requires
            at + len <= PAGE_SIZE,
        ensures
            r@ == self@.subrange(at as int, at + len),
    {
        let mut out: Vec<u8> = Vec::with_capacity(len);
        let mut i: usize = 0;
        while i < len
            invariant
                i <= len,
                at + len <= PAGE_SIZE,
                out@.len() == i,
                forall|j: int| 0 <= j < i ==> #[trigger] out@[j] == self.data@[at + j],
            decreases len - i,
        {
            out.push(self.data[at + i]);
            i += 1;
        }
        assert(out@ =~= self@.subrange(at as int, at + len));
        out
    }

    /// Stores the first `n` bytes of `src` in the page, from `at` on.
    pub fn put_bytes(&mut self, at: usize, src: &[u8], n: usize)
        requires
            n <= src@.len(),
            at + n <= PAGE_SIZE,
        ensures
            final(self).id() == old(self).id(),
            final(self).pins() == old(self).pins(),
            final(self).dirty() == old(self).dirty(),
            final(self)@.len() == PAGE_SIZE,
            spliced(old(self)@, final(self)@, at as int, src@.subrange(0, n as int)),
    {
        let mut i: usize = 0;
        while i < n
            invariant
                i <= n,
                n <= src@.len(),
                at + n <= PAGE_SIZE,
                self.page_id == old(self).page_id,
                self.pin_count == old(self).pin_count,
                self.is_dirty == old(self).is_dirty,
                forall|j: int| 0 <= j < i ==> self.data@[at + j] == #[trigger] src@[j],
                forall|k: int|
                    0 <= k < PAGE_SIZE && !(at <= k < at + i) ==> self.data@[k] == old(
                        self,
                    ).data@[k],
            decreases n - i,
        {
            self.data[at + i] = src[i];
            i += 1;
        }
        proof {
            assert(self.data@ =~= splice(old(self).data@, at as int, src@.subrange(0, n as int)));
            lemma_splice(old(self).data@, at as int, src@.subrange(0, n as int));
        }
    }

    /// Moves the bytes in `[start, end)` so that they begin at `dest`; the two
    /// ranges may overlap.
    pub fn copy_within(&mut self, start: usize, end: usize, dest: usize)
        requires
            start <= end <= PAGE_SIZE,
            dest + (end - start) <= PAGE_SIZE,
        ensures
            final(self).id() == old(self).id(),
            final(self).pins() == old(self).pins(),
            final(self).dirty() == old(self).dirty(),
            final(self)@.len() == PAGE_SIZE,
            spliced(
                old(self)@,
                final(self)@,
                dest as int,
                old(self)@.subrange(start as int, end as int),
            ),
    {
        let n: usize = end - start;
        if dest <= start {
            let mut i: usize = 0;
            while i < n
                invariant
                    i <= n,
                    n == end - start,
                    start <= end <= PAGE_SIZE,
                    dest + n <= PAGE_SIZE,
                    dest <= start,
                    self.page_id == old(self).page_id,
                    self.pin_count == old(self).pin_count,
                    self.is_dirty == old(self).is_dirty,
                    forall|k: int|
                        dest <= k < dest + i ==> #[trigger] self.data@[k] == old(self).data@[k - dest + start],
                    forall|k: int|
                        0 <= k < PAGE_SIZE && !(dest <= k < dest + i) ==> self.data@[k] == old(
                            self,
                        ).data@[k],
                decreases n - i,
            {
                self.data[dest + i] = self.data[start + i];
                i += 1;
            }
        } else {
            let mut i: usize = n;
            while i > 0
                invariant
                    i <= n,
                    n == end - start,
                    start <= end <= PAGE_SIZE,
                    dest + n <= PAGE_SIZE,
                    dest > start,
                    self.page_id == old(self).page_id,
                    self.pin_count == old(self).pin_count,
                    self.is_dirty == old(self).is_dirty,
                    forall|k: int|
                        dest + i <= k < dest + n ==> #[trigger] self.data@[k] == old(self).data@[k - dest + start],
                    forall|k: int|
                        0 <= k < PAGE_SIZE && !(dest + i <= k < dest + n) ==> self.data@[k] == old(
                            self,
                        ).data@[k],
                decreases i,
            {
                i -= 1;
                self.data[dest + i] = self.data[start + i];
            }
        }
        proof {
            let moved = old(self).data@.subrange(start as int, end as int);
            assert(self.data@ =~= splice(old(self).data@, dest as int, moved));
            lemma_splice(old(self).data@, dest as int, moved);
        }
    }
}

} // verus!
