use crate::file::{FileOp, SyncFile};
use vstd::prelude::*;

verus! {

/// Size in bytes of one encoded page.
pub const PAGE_SIZE: usize = 4096;

/// Size in bytes of the header, and of the footer.
pub const HEADER_SIZE: usize = 16;

/// Size in bytes of the slot region.
pub const SLOTS_SIZE: usize = 4056;

/// Byte offset of `num_slots` in an encoded page.
pub const NUM_SLOTS_OFFSET: usize = 16;

/// Byte offset of `slot_cap` in an encoded page.
pub const SLOT_CAP_OFFSET: usize = 20;

/// Byte offset of the slot region in an encoded page.
pub const SLOTS_OFFSET: usize = 24;

/// Byte offset of the footer in an encoded page.
pub const FOOTER_OFFSET: usize = 4080;

/// Slot capacity of a freshly created page.
pub const DEFAULT_SLOT_CAP: u32 = 10;

/// Abstract value of a page: its five fields as plain values.
pub struct PageModel {
    pub header: Seq<u8>,
    pub num_slots: u32,
    pub slot_cap: u32,
    pub slots: Seq<u8>,
    pub footer: Seq<u8>,
}

impl PageModel {
    /// Every field has the size that the page layout gives it.
    pub open spec fn wf(self) -> bool {
        &&& self.header.len() == HEADER_SIZE
        &&& self.slots.len() == SLOTS_SIZE
        &&& self.footer.len() == HEADER_SIZE
    }
}

/// Four bytes of `v`, least significant first.
pub open spec fn le_bytes(v: u32) -> Seq<u8> {
    seq![
        (v & 0xff) as u8,
        ((v >> 8u32) & 0xff) as u8,
        ((v >> 16u32) & 0xff) as u8,
        ((v >> 24u32) & 0xff) as u8,
    ]
}

/// The integer whose little-endian bytes are `b[0..4]`.
pub open spec fn le_value(b: Seq<u8>) -> u32 {
    (b[0] as u32) | ((b[1] as u32) << 8u32) | ((b[2] as u32) << 16u32) | ((b[3] as u32) << 24u32)
}

/// The on-disk form of a page: header, `num_slots`, `slot_cap`, slots, footer.
pub open spec fn encode(p: PageModel) -> Seq<u8> {
    p.header + le_bytes(p.num_slots) + le_bytes(p.slot_cap) + p.slots + p.footer
}

/// The page whose on-disk form is `b`, read field by field at the layout's offsets.
pub open spec fn decode(b: Seq<u8>) -> PageModel {
    PageModel {
        header: b.subrange(0, NUM_SLOTS_OFFSET as int),
        num_slots: le_value(b.subrange(NUM_SLOTS_OFFSET as int, SLOT_CAP_OFFSET as int)),
        slot_cap: le_value(b.subrange(SLOT_CAP_OFFSET as int, SLOTS_OFFSET as int)),
        slots: b.subrange(SLOTS_OFFSET as int, FOOTER_OFFSET as int),
        footer: b.subrange(FOOTER_OFFSET as int, PAGE_SIZE as int),
    }
}

/// The page that `PageFormat::new` builds: zero header, footer and slots,
/// no slot in use and the default capacity.
pub open spec fn default_page() -> PageModel {
    PageModel {
        header: Seq::new(16, |i: int| 0u8),
        num_slots: 0,
        slot_cap: DEFAULT_SLOT_CAP,
        slots: Seq::new(4056, |i: int| 0u8),
        footer: Seq::new(16, |i: int| 0u8),
    }
}

/// Why a byte buffer is not a page.
#[derive(Debug, PartialEq, Eq, Structural)]
pub enum PageError {
    /// The buffer holds this many bytes instead of exactly `PAGE_SIZE`.
    WrongLength(usize),
}

/// Reading back the four bytes of `v` gives `v`.
pub proof fn lemma_le_bytes_value(v: u32)
    ensures
        le_value(le_bytes(v)) == v,
        le_bytes(v).len() == 4,
{
    assert(((v & 0xff) as u8 as u32) | ((((v >> 8u32) & 0xff) as u8 as u32) << 8u32) | ((((v
        >> 16u32) & 0xff) as u8 as u32) << 16u32) | ((((v >> 24u32) & 0xff) as u8 as u32) << 24u32)
        == v) by (bit_vector);
}

/// Four bytes are the bytes of the integer they read as.
pub proof fn lemma_le_value_bytes(b: Seq<u8>)
    requires
        b.len() == 4,
    ensures
        le_bytes(le_value(b)) == b,
{
    let (b0, b1, b2, b3) = (b[0], b[1], b[2], b[3]);
    let v = le_value(b);
    assert(v == (b0 as u32) | ((b1 as u32) << 8u32) | ((b2 as u32) << 16u32) | ((b3 as u32)
        << 24u32));
    assert((v & 0xff) as u8 == b0 && ((v >> 8u32) & 0xff) as u8 == b1 && ((v >> 16u32)
        & 0xff) as u8 == b2 && ((v >> 24u32) & 0xff) as u8 == b3) by (bit_vector)
        requires
            v == (b0 as u32) | ((b1 as u32) << 8u32) | ((b2 as u32) << 16u32) | ((b3 as u32)
                << 24u32),
    ;
    assert(le_bytes(v) =~= b);
}

/// The encoding of a well-formed page is exactly one page long.
pub proof fn lemma_encode_len(p: PageModel)
    requires
        p.wf(),
    ensures
        encode(p).len() == PAGE_SIZE,
{
    lemma_le_bytes_value(p.num_slots);
    lemma_le_bytes_value(p.slot_cap);
}

/// Decoding the encoding of a page gives back that page, field for field.
pub proof fn lemma_decode_encode(p: PageModel)
    requires
        p.wf(),
    ensures
        decode(encode(p)) == p,
{
    lemma_encode_len(p);
    let e = encode(p);
    lemma_le_bytes_value(p.num_slots);
    lemma_le_bytes_value(p.slot_cap);
    assert(e.subrange(0, 16) =~= p.header);
    assert(e.subrange(16, 20) =~= le_bytes(p.num_slots));
    assert(e.subrange(20, 24) =~= le_bytes(p.slot_cap));
    assert(e.subrange(24, 4080) =~= p.slots);
    assert(e.subrange(4080, 4096) =~= p.footer);
}

/// Encoding the decoding of a page-sized buffer gives back that buffer.
pub proof fn lemma_encode_decode(b: Seq<u8>)
    requires
        b.len() == PAGE_SIZE,
    ensures
        decode(b).wf(),
        encode(decode(b)) == b,
{
    lemma_le_value_bytes(b.subrange(16, 20));
    lemma_le_value_bytes(b.subrange(20, 24));
    assert(encode(decode(b)) =~= b);
}

/// A copy of `data[start..start + N]` as an array.
fn array_at<const N: usize>(data: &Vec<u8>, start: usize) -> (r: [u8; N])
    requires
        start + N <= data@.len(),
    ensures
        r@ == data@.subrange(start as int, start + N),
{
    let len = data.len();
    let mut a: [u8; N] = [0u8; N];
    let mut i: usize = 0;
    while i < N
        invariant
            start + N <= len == data@.len(),
            i <= N,
            a@.len() == N,
            forall|k: int| 0 <= k < i ==> a@[k] == data@[start + k],
        decreases N - i,
    {
        a[i] = data[start + i];
        i = i + 1;
    }
    assert(a@ =~= data@.subrange(start as int, start + N));
    a
}

/// Reads the little-endian `u32` at `data[start..start + 4]`.
fn u32_at(data: &Vec<u8>, start: usize) -> (r: u32)
    requires
        start + 4 <= data@.len(),
    ensures
        r == le_value(data@.subrange(start as int, start + 4)),
{
    let len = data.len();
    let b0 = data[start];
    let b1 = data[start + 1];
    let b2 = data[start + 2];
    let b3 = data[start + 3];
    let ghost s = data@.subrange(start as int, start + 4);
    assert(s[0] == b0 && s[1] == b1 && s[2] == b2 && s[3] == b3);
    (b0 as u32) | ((b1 as u32) << 8u32) | ((b2 as u32) << 16u32) | ((b3 as u32) << 24u32)
}

/// Appends the little-endian bytes of `v` to `out`.
fn push_u32(out: &mut Vec<u8>, v: u32)
    ensures
        final(out)@ == old(out)@ + le_bytes(v),
{
    out.push((v & 0xff) as u8);
    out.push(((v >> 8u32) & 0xff) as u8);
    out.push(((v >> 16u32) & 0xff) as u8);
    out.push(((v >> 24u32) & 0xff) as u8);
    assert(out@ =~= old(out)@ + le_bytes(v));
}

/// Appends all bytes of `a` to `out`.
fn push_bytes(out: &mut Vec<u8>, a: &[u8])
    ensures
        final(out)@ == old(out)@ + a@,
{
    let mut i: usize = 0;
    while i < a.len()
        invariant
            i <= a@.len(),
            out@ == old(out)@ + a@.subrange(0, i as int),
        decreases a@.len() - i,
    {
        out.push(a[i]);
        i = i + 1;
        assert(out@ =~= old(out)@ + a@.subrange(0, i as int));
    }
    assert(a@.subrange(0, i as int) =~= a@);
}

/// Whether the two arrays hold the same bytes.
fn same_bytes(a: &[u8], b: &[u8]) -> (r: bool)
    ensures
        r == (a@ == b@),
{
    if a.len() != b.len() {
        return false;
    }
    let mut i: usize = 0;
    while i < a.len()
        invariant
            a@.len() == b@.len(),
            i <= a@.len(),
            forall|k: int| 0 <= k < i ==> a@[k] == b@[k],
        decreases a@.len() - i,
    {
        if a[i] != b[i] {
            return false;
        }
        i = i + 1;
    }
    assert(a@ =~= b@);
    true
}

/// The first `N` bytes of `bytes` as an array.
pub fn array_from_vec<const N: usize>(bytes: Vec<u8>) -> (r: [u8; N])
    requires
        N <= bytes@.len(),
    ensures
        r@ == bytes@.subrange(0, N as int),
{
    array_at::<N>(&bytes, 0)
}

/// One fixed-size page: a header, two slot counters, a slot region and a footer.
#[derive(Debug)]
pub struct PageFormat {
    header: [u8; 16],
    num_slots: u32,
    slot_cap: u32,
    slots: [u8; 4056],
    footer: [u8; 16],
}

impl View for PageFormat {
    type V = PageModel;

    closed spec fn view(&self) -> PageModel {
        PageModel {
            header: self.header@,
            num_slots: self.num_slots,
            slot_cap: self.slot_cap,
            slots: self.slots@,
            footer: self.footer@,
        }
    }
}

impl PageFormat {
    /// Every page's fields have the sizes of the layout.
    pub proof fn lemma_wf(&self)
        ensures
            self@.wf(),
    {
    }

    /// A page with zero header, footer and slots, no slot in use and capacity 10.
    pub fn new() -> (p: PageFormat)
        ensures
            p@ == default_page(),
    {
        let p = PageFormat {
            header: [0u8; 16],
            slot_cap: DEFAULT_SLOT_CAP,
            num_slots: 0,
            slots: [0u8; 4056],
            footer: [0u8; 16],
        };
        assert(p@.header =~= default_page().header);
        assert(p@.slots =~= default_page().slots);
        assert(p@.footer =~= default_page().footer);
        p
    }

    /// The page's 4096-byte on-disk form.
    pub fn serialize(&self) -> (r: Vec<u8>)
        ensures
            r@ == encode(self@),
            r@.len() == PAGE_SIZE,
    {
        let mut data: Vec<u8> = Vec::with_capacity(PAGE_SIZE);
        push_bytes(&mut data, &self.header);
        push_u32(&mut data, self.num_slots);
        push_u32(&mut data, self.slot_cap);
        push_bytes(&mut data, &self.slots);
        push_bytes(&mut data, &self.footer);
        proof {
            lemma_encode_len(self@);
        }
        data
    }

    /// The page whose on-disk form is `data`; an error unless `data` is exactly one page long.
    pub fn deserialize(data: Vec<u8>) -> (r: Result<PageFormat, PageError>)
        ensures
            data@.len() != PAGE_SIZE ==> r == Err::<PageFormat, PageError>(
                PageError::WrongLength(data@.len() as usize),
            ),
            data@.len() == PAGE_SIZE ==> r is Ok && r->Ok_0@ == decode(data@),
            r is Ok ==> encode(r->Ok_0@) == data@,
    {
        if data.len() != PAGE_SIZE {
            return Err(PageError::WrongLength(data.len()));
        }
        let header = array_at::<16>(&data, 0);
        let num_slots = u32_at(&data, NUM_SLOTS_OFFSET);
        let slot_cap = u32_at(&data, SLOT_CAP_OFFSET);
        let slots = array_at::<4056>(&data, SLOTS_OFFSET);
        let footer = array_at::<16>(&data, FOOTER_OFFSET);
        let p = PageFormat { header, slot_cap, num_slots, slots, footer };
        proof {
            lemma_encode_decode(data@);
        }
        Ok(p)
    }

    /// Appends the page's encoding at the end of `file` and asks for its data to be
    /// persisted; on success the file has grown by exactly that encoding.
    pub fn write_to_disk<F: SyncFile>(&self, file: &mut F) -> (r: Result<(), F::Error>)
        ensures
            final(file).contents().len() >= old(file).contents().len(),
            r is Ok ==> final(file).contents() == old(file).contents() + encode(self@),
            r is Ok ==> final(file).ops() == old(file).ops().push(FileOp::SyncData),
            r is Err ==> final(file).ops() == old(file).ops(),
    {
        let end = match file.len() {
            Ok(n) => n,
            Err(e) => return Err(e),
        };
        if let Err(e) = file.seek(end) {
            return Err(e);
        }
        let bytes = self.serialize();
        if let Err(e) = file.write_all(bytes.as_slice()) {
            return Err(e);
        }
        let ghost written = file.contents();
        proof {
            assert(written =~= old(file).contents() + encode(self@));
        }
        file.sync_data()
    }

    /// Replaces the header.
    pub fn set_header(&mut self, header: [u8; 16])
        ensures
            final(self)@ == (PageModel { header: header@, ..old(self)@ }),
    {
        self.header = header;
    }

    /// Replaces the footer.
    pub fn set_footer(&mut self, footer: [u8; 16])
        ensures
            final(self)@ == (PageModel { footer: footer@, ..old(self)@ }),
    {
        self.footer = footer;
    }

    /// The footer.
    pub fn get_footer(&self) -> (r: &[u8; 16])
        ensures
            r@ == self@.footer,
    {
        &self.footer
    }

    /// The header.
    pub fn get_header(&self) -> (r: &[u8; 16])
        ensures
            r@ == self@.header,
    {
        &self.header
    }

    /// Copies `values` to the start of the slot region, cut to the region's size;
    /// the rest of the region is kept.
    pub fn set_slots(&mut self, values: &[u8])
        ensures
            final(self)@ == (PageModel {
                slots: if values@.len() < SLOTS_SIZE {
                    values@ + old(self)@.slots.subrange(values@.len() as int, SLOTS_SIZE as int)
                } else {
                    values@.subrange(0, SLOTS_SIZE as int)
                },
                ..old(self)@
            }),
    {
        let len: usize = if values.len() < SLOTS_SIZE {
            values.len()
        } else {
            SLOTS_SIZE
        };
        let mut i: usize = 0;
        while i < len
            invariant
                len <= values@.len(),
                len <= SLOTS_SIZE,
                i <= len,
                self.header == old(self).header,
                self.footer == old(self).footer,
                self.num_slots == old(self).num_slots,
                self.slot_cap == old(self).slot_cap,
                self.slots@.len() == SLOTS_SIZE,
                forall|k: int| 0 <= k < i ==> self.slots@[k] == values@[k],
                forall|k: int| i <= k < SLOTS_SIZE ==> self.slots@[k] == old(self).slots@[k],
            decreases len - i,
        {
            self.slots[i] = values[i];
            i = i + 1;
        }
        proof {
            if values@.len() < SLOTS_SIZE {
                assert(self.slots@ =~= values@ + old(self)@.slots.subrange(
                    values@.len() as int,
                    SLOTS_SIZE as int,
                ));
            } else {
                assert(self.slots@ =~= values@.subrange(0, SLOTS_SIZE as int));
            }
        }
    }

    /// The number of slots in use.
    pub fn num_slots(&self) -> (r: u32)
        ensures
            r == self@.num_slots,
    {
        self.num_slots
    }

    /// The number of slots the page is provisioned for.
    pub fn slot_cap(&self) -> (r: u32)
        ensures
            r == self@.slot_cap,
    {
        self.slot_cap
    }

    /// The slot region.
    pub fn slots(&self) -> (r: &[u8; 4056])
        ensures
            r@ == self@.slots,
    {
        &self.slots
    }
}

impl PartialEq for PageFormat {
    fn eq(&self, other: &PageFormat) -> (r: bool)
        ensures
            r == (self@ == other@),
    {
        let r = same_bytes(&self.header, &other.header) && self.num_slots == other.num_slots
            && self.slot_cap == other.slot_cap && same_bytes(&self.slots, &other.slots)
            && same_bytes(&self.footer, &other.footer);
        r
    }
}

impl vstd::std_specs::cmp::PartialEqSpecImpl for PageFormat {
    open spec fn obeys_eq_spec() -> bool {
        true
    }

    open spec fn eq_spec(&self, other: &PageFormat) -> bool {
        self@ == other@
    }
}

} // verus!
