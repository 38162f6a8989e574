use vstd::prelude::*;

verus! {

/// The name of a tuple: the page that holds it and its slot on that page.
#[derive(Clone, Copy, Debug, PartialEq, Eq, Structural)]
pub struct RID {
    pub page_id: u32,
    pub slot_num: u32,
}

/// A byte payload, with the record identifier it was stored under, if any.
pub struct Tuple {
    data: Vec<u8>,
    rid: Option<RID>,
    allocated: bool,
}

/// What a tuple holds.
pub struct TupleView {
    pub data: Seq<u8>,
    pub rid: Option<RID>,
    pub allocated: bool,
}

impl View for Tuple {
    type V = TupleView;

    closed spec fn view(&self) -> TupleView {
        TupleView { data: self.data@, rid: self.rid, allocated: self.allocated }
    }
}

impl RID {
    /// The identifier of slot `slot_num` on page `page_id`.
    pub fn new(page_id: u32, slot_num: u32) -> (r: RID)
        ensures
            r == (RID { page_id, slot_num }),
    {
        RID { page_id, slot_num }
    }

    /// The same as `new`.
    pub fn from(page_id: u32, slot_num: u32) -> (r: RID)
        ensures
            r == (RID { page_id, slot_num }),
    {
        RID { page_id, slot_num }
    }

    /// Points the identifier at another page and slot.
    pub fn set(&mut self, page_id: u32, slot_num: u32)
        ensures
            *final(self) == (RID { page_id, slot_num }),
    {
        self.page_id = page_id;
        self.slot_num = slot_num;
    }

    /// The page that holds the tuple.
    pub fn get_page_id(&self) -> (r: &u32)
        ensures
            *r == self.page_id,
    {
        &self.page_id
    }

    /// The slot of the tuple on its page.
    pub fn get_slot_num(&self) -> (r: &u32)
        ensures
            *r == self.slot_num,
    {
        &self.slot_num
    }
}

impl Tuple {
    /// A tuple without bytes and without an identifier.
    pub fn empty() -> (r: Tuple)
        ensures
            r@ == (TupleView { data: Seq::empty(), rid: None, allocated: false }),
    {
        Tuple { data: Vec::new(), rid: None, allocated: false }
    }

    /// A tuple that holds `data` and has no identifier yet.
    pub fn from_data(data: Vec<u8>) -> (r: Tuple)
        ensures
            r@ == (TupleView { data: data@, rid: None, allocated: false }),
    {
        Tuple { data, rid: None, allocated: false }
    }

    /// The bytes of the tuple.
    pub fn get_data(&self) -> (r: &[u8])
        ensures
            r@ == self@.data,
    {
        self.data.as_slice()
    }

    /// The bytes of the tuple, to be changed in place.
    pub fn get_data_mut(&mut self) -> (r: &mut [u8])
        ensures
            r@ == old(self)@.data,
            final(self)@ == (TupleView { data: final(r)@, ..old(self)@ }),
    {
        self.data.as_mut_slice()
    }

    /// The identifier of the tuple, if it has one.
    pub fn get_rid(&self) -> (r: Option<&RID>)
        ensures
            r is Some <==> self@.rid is Some,
            r matches Some(rid) ==> self@.rid == Some(*rid),
    {
        match &self.rid {
            Some(rid) => Some(rid),
            None => None,
        }
    }

    /// Gives the tuple an identifier, unless it has one already; says whether
    /// it did.
    pub fn set_rid(&mut self, rid: RID) -> (r: bool)
        ensures
            r == (old(self)@.rid is None),
            r ==> final(self)@ == (TupleView { rid: Some(rid), ..old(self)@ }),
            !r ==> final(self)@ == old(self)@,
    {
        if self.rid.is_some() {
            return false;
        }
        self.rid = Some(rid);
        true
    }

    /// How many bytes the tuple holds.
    pub fn get_length(&self) -> (r: usize)
        ensures
            r == self@.data.len(),
    {
        self.data.len()
    }

    /// Marks the tuple as stored in a slot.
    pub fn allocated(&mut self)
        ensures
            final(self)@ == (TupleView { allocated: true, ..old(self)@ }),
    {
        self.allocated = true;
    }

    /// Whether the tuple has been stored in a slot.
    pub fn is_allocated(&self) -> (r: bool)
        ensures
            r == self@.allocated,
    {
        self.allocated
    }

    /// Records that the tuple now lives under `rid`, whatever identifier it
    /// had before.
    pub fn place(&mut self, rid: RID)
        ensures
            final(self)@ == (TupleView { rid: Some(rid), allocated: true, ..old(self)@ }),
    {
        self.rid = Some(rid);
        self.allocated = true;
    }
}

} // verus!
