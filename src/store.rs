use crate::file::{overwrite, FileOp, SyncFile};
use crate::page::{
    decode, default_page, encode, lemma_decode_encode, lemma_encode_len, PageError, PageFormat,
    PageModel, PAGE_SIZE,
};
use crate::page_map::{offset_free, offsets_aligned, offsets_distinct, PageId, PageIdGenerator, PageMap};
use crate::metadata::{signature_of, MetaDataError, MetaDataModel, StoreMetaData, STORE_VERSION};
use vstd::prelude::*;

verus! {

/// Why a store operation failed.
#[derive(Debug)]
pub enum StoreError<E> {
    /// The backing file failed; its error is passed on unchanged.
    Io(E),
    /// The handle was never allocated by this store.
    PageNotAllocated,
    /// Bytes read back from the file are not a page.
    Malformed(PageError),
    /// The file's length is not a whole number of pages, so no page can be appended.
    UnalignedFile(u64),
    /// The page count, the handle counter or the file offset has reached its limit.
    Exhausted,
    /// The handle drawn from the counter is already in this store's table, so the
    /// counter was not the one this store has drawn from before.
    IdInUse,
}

/// Abstract state of a store.
pub struct StoreModel {
    /// Offset of each allocated page, by handle value.
    pub pages: Map<usize, u64>,
    /// The bytes of the backing file.
    pub contents: Seq<u8>,
    /// Number of pages allocated.
    pub count: nat,
    /// The durability requests the backing file carried out.
    pub log: Seq<FileOp>,
}

impl StoreModel {
    /// Pages sit at distinct page boundaries inside the file, and the count is the
    /// number of pages.
    pub open spec fn wf(self) -> bool {
        &&& self.pages.dom().finite()
        &&& offsets_distinct(self.pages)
        &&& offsets_aligned(self.pages)
        &&& forall|k: usize| #[trigger]
            self.pages.contains_key(k) ==> self.pages[k] + PAGE_SIZE <= self.contents.len()
        &&& self.count == self.pages.len()
        &&& self.count <= u32::MAX
    }
}

/// The bytes of the page at `offset` in `contents`.
pub open spec fn page_bytes(contents: Seq<u8>, offset: u64) -> Seq<u8> {
    contents.subrange(offset as int, offset + PAGE_SIZE)
}

/// A page manager over one backing file: allocates pages at the end of the file and
/// reads and writes them in place by handle.
pub struct Store<F: SyncFile> {
    file: F,
    page_map: PageMap,
    num_pages: u32,
}

impl<F: SyncFile> View for Store<F> {
    type V = StoreModel;

    closed spec fn view(&self) -> StoreModel {
        StoreModel {
            pages: self.page_map@,
            contents: self.file.contents(),
            count: self.num_pages as nat,
            log: self.file.ops(),
        }
    }
}

impl<F: SyncFile> Store<F> {
    /// The store's invariant: its model is well formed.
    pub open spec fn inv(&self) -> bool {
        self@.wf()
    }

    /// A store over `file` with no pages yet.
    pub fn new(file: F) -> (r: Store<F>)
        ensures
            r.inv(),
            r@.pages == Map::<usize, u64>::empty(),
            r@.contents == file.contents(),
            r@.log == file.ops(),
            r@.count == 0,
    {
        Store { file, page_map: PageMap::new(), num_pages: 0 }
    }

    /// The backing file.
    pub fn get_file(&self) -> (r: &F)
        ensures
            r.contents() == self@.contents,
            r.ops() == self@.log,
    {
        &self.file
    }

    /// Signed metadata for the store: the file's size, no entries, the format version.
    pub fn metadata(&self) -> (r: Result<StoreMetaData, MetaDataError<F::Error>>)
        ensures
            r is Ok ==> r->Ok_0@ == (MetaDataModel {
                capacity: self@.contents.len() as u64,
                num_entries: 0,
                signature: signature_of(self@.contents.len() as u64, 0, STORE_VERSION),
                version: STORE_VERSION,
            }),
    {
        match self.file.len() {
            Ok(capacity) => Ok(StoreMetaData::signed(capacity, 0, STORE_VERSION)),
            Err(e) => Err(MetaDataError::from(e)),
        }
    }

    /// The number of pages allocated by this store.
    pub fn len(&self) -> (r: u32)
        requires
            self.inv(),
        ensures
            r == self@.count,
            r == self@.pages.len(),
    {
        self.num_pages
    }

    /// The offset of the page `id`, or `None` if this store never allocated it.
    pub fn get_page_location(&self, id: &PageId) -> (r: Option<u64>)
        ensures
            self@.pages.contains_key(id@) ==> r == Some(self@.pages[id@]),
            !self@.pages.contains_key(id@) ==> r is None,
    {
        self.page_map.get_location(id)
    }

    /// Appends a fresh page at the end of the file and returns a new handle for it,
    /// drawn from `ids`. Handles drawn from one counter are never drawn twice, so a
    /// process that gives every store the same counter never sees a handle twice.
    ///
    /// Fails with `Exhausted` when the page count, the counter or the file offset is
    /// at its limit, with `IdInUse` when the drawn handle is already in the table,
    /// with `UnalignedFile` when the file is not a whole number of pages long, and
    /// with `Io` when the file fails; the table is unchanged on failure.
    pub fn allocate_page(&mut self, ids: &mut PageIdGenerator) -> (r: Result<
        PageId,
        StoreError<F::Error>,
    >)
        requires
            old(self).inv(),
        ensures
            final(self).inv(),
            old(self)@.count < u32::MAX && old(ids)@ < usize::MAX ==> final(ids)@ == old(ids)@
                + 1,
            !(old(self)@.count < u32::MAX && old(ids)@ < usize::MAX) ==> final(ids)@ == old(
                ids,
            )@,
            (old(self)@.count >= u32::MAX || old(ids)@ >= usize::MAX) ==> r is Err
                && r->Err_0 is Exhausted,
            r is Err && r->Err_0 is Exhausted ==> old(self)@.count >= u32::MAX || old(ids)@
                >= usize::MAX || old(self)@.contents.len() + PAGE_SIZE > u64::MAX,
            (r is Err && r->Err_0 is IdInUse) <==> (old(self)@.count < u32::MAX && old(ids)@
                < usize::MAX && old(self)@.pages.contains_key(old(ids)@ as usize)),
            old(self)@.count < u32::MAX && old(ids)@ < usize::MAX && !old(
                self,
            )@.pages.contains_key(old(ids)@ as usize) && old(self)@.contents.len() % (
            PAGE_SIZE as nat) != 0 ==> r is Err && (r->Err_0 is UnalignedFile || r->Err_0 is Io),
            r is Err && r->Err_0 is UnalignedFile ==> r->Err_0->UnalignedFile_0
                == old(self)@.contents.len() && old(self)@.contents.len() % (PAGE_SIZE as nat)
                != 0,
            old(self)@.count < u32::MAX && old(ids)@ < usize::MAX && !old(
                self,
            )@.pages.contains_key(old(ids)@ as usize) && old(self)@.contents.len() % (
            PAGE_SIZE as nat) == 0 && old(self)@.contents.len() + PAGE_SIZE <= u64::MAX ==> r is Ok
                || r->Err_0 is Io,
            r is Err ==> r->Err_0 is Io || r->Err_0 is Exhausted || r->Err_0 is UnalignedFile
                || r->Err_0 is IdInUse,
            r is Err ==> final(self)@.pages == old(self)@.pages && final(self)@.count == old(
                self,
            )@.count && final(self)@.log == old(self)@.log,
            r is Ok ==> {
                let id = r->Ok_0;
                &&& id@ == old(ids)@
                &&& !old(self)@.pages.contains_key(id@)
                &&& old(self)@.contents.len() + PAGE_SIZE <= u64::MAX
                &&& final(self)@.pages == old(self)@.pages.insert(
                    id@,
                    old(self)@.contents.len() as u64,
                )
                &&& final(self)@.contents == old(self)@.contents + encode(default_page())
                &&& final(self)@.count == old(self)@.count + 1
                &&& final(self)@.log == old(self)@.log.push(FileOp::SyncData)
            },
    {
        if self.num_pages == u32::MAX || ids.is_exhausted() {
            return Err(StoreError::Exhausted);
        }
        let id = match ids.next_id() {
            Some(id) => id,
            None => return Err(StoreError::Exhausted),
        };
        if let Some(_) = self.page_map.get_location(&id) {
            return Err(StoreError::IdInUse);
        }
        let location = match self.file.len() {
            Ok(n) => n,
            Err(e) => return Err(StoreError::Io(e)),
        };
        if location % (PAGE_SIZE as u64) != 0 {
            return Err(StoreError::UnalignedFile(location));
        }
        if location > u64::MAX - (PAGE_SIZE as u64) {
            return Err(StoreError::Exhausted);
        }
        let page = PageFormat::new();
        let ghost before = self@;
        let written = page.write_to_disk(&mut self.file);
        proof {
            self.lemma_grown_keeps_inv(before);
        }
        if let Err(e) = written {
            return Err(StoreError::Io(e));
        }
        proof {
            lemma_encode_len(default_page());
            assert(self@.contents =~= before.contents + encode(default_page()));
            assert(offset_free(self.page_map@.remove(id@), location)) by {
                assert forall|k: usize| #[trigger]
                    self.page_map@.remove(id@).contains_key(k) implies self.page_map@[k]
                    != location by {
                    assert(before.pages.contains_key(k));
                }
            }
        }
        self.page_map.map_page(id, location);
        self.num_pages = self.num_pages + 1;
        proof {
            assert(self@.pages.dom() =~= before.pages.dom().insert(id@));
        }
        Ok(id)
    }

    /// The invariant survives a change of the file that does not shorten it.
    proof fn lemma_grown_keeps_inv(&self, before: StoreModel)
        requires
            before.wf(),
            self@.pages == before.pages,
            self@.count == before.count,
            self@.contents.len() >= before.contents.len(),
        ensures
            self.inv(),
    {
        assert forall|k: usize| #[trigger] self@.pages.contains_key(k) implies self@.pages[k]
            + PAGE_SIZE <= self@.contents.len() by {
            assert(before.pages.contains_key(k));
        }
    }

    /// Reads the page `id` back from the file.
    ///
    /// Fails with `PageNotAllocated` exactly when this store never allocated `id`, and
    /// otherwise only with `Io` when the file fails.
    pub fn read_page(&mut self, id: PageId) -> (r: Result<PageFormat, StoreError<F::Error>>)
        requires
            old(self).inv(),
        ensures
            final(self).inv(),
            final(self)@ == old(self)@,
            !old(self)@.pages.contains_key(id@) <==> r is Err && r->Err_0 is PageNotAllocated,
            r is Err ==> r->Err_0 is Io || r->Err_0 is PageNotAllocated,
            r is Ok ==> r->Ok_0@ == decode(page_bytes(old(self)@.contents, old(self)@.pages[id@])),
            r is Ok ==> encode(r->Ok_0@) == page_bytes(
                old(self)@.contents,
                old(self)@.pages[id@],
            ),
    {
        let location = match self.page_map.get_location(&id) {
            Some(l) => l,
            None => return Err(StoreError::PageNotAllocated),
        };
        let ghost before = self@;
        if let Err(e) = self.file.seek(location) {
            proof {
                self.lemma_grown_keeps_inv(before);
            }
            return Err(StoreError::Io(e));
        }
        let read = self.file.read_exact(PAGE_SIZE);
        proof {
            self.lemma_grown_keeps_inv(before);
            assert(self@ =~= before);
        }
        let bytes = match read {
            Ok(b) => b,
            Err(e) => return Err(StoreError::Io(e)),
        };
        match PageFormat::deserialize(bytes) {
            Ok(page) => Ok(page),
            Err(e) => Err(StoreError::Malformed(e)),
        }
    }

    /// Overwrites the page `id` in place with the encoding of `page`.
    ///
    /// Fails with `PageNotAllocated` exactly when this store never allocated `id`, and
    /// otherwise only with `Io` when the file fails.
    pub fn write_page(&mut self, page: &PageFormat, id: &PageId) -> (r: Result<
        (),
        StoreError<F::Error>,
    >)
        requires
            old(self).inv(),
        ensures
            final(self).inv(),
            final(self)@.pages == old(self)@.pages,
            final(self)@.count == old(self)@.count,
            final(self)@.log == old(self)@.log,
            !old(self)@.pages.contains_key(id@) <==> r is Err && r->Err_0 is PageNotAllocated,
            !old(self)@.pages.contains_key(id@) ==> final(self)@ == old(self)@,
            r is Err ==> r->Err_0 is Io || r->Err_0 is PageNotAllocated,
            r is Ok ==> final(self)@.contents == overwrite(
                old(self)@.contents,
                old(self)@.pages[id@] as nat,
                encode(page@),
            ),
            r is Ok ==> page_bytes(final(self)@.contents, old(self)@.pages[id@]) == encode(page@),
            r is Ok ==> forall|k: usize|
                #![trigger old(self)@.pages[k]]
                old(self)@.pages.contains_key(k) && k != id@ ==> page_bytes(
                    final(self)@.contents,
                    old(self)@.pages[k],
                ) == page_bytes(old(self)@.contents, old(self)@.pages[k]),
    {
        let location = match self.page_map.get_location(id) {
            Some(l) => l,
            None => return Err(StoreError::PageNotAllocated),
        };
        let ghost before = self@;
        if let Err(e) = self.file.seek(location) {
            proof {
                self.lemma_grown_keeps_inv(before);
            }
            return Err(StoreError::Io(e));
        }
        let bytes = page.serialize();
        let res = self.file.write_all(bytes.as_slice());
        proof {
            self.lemma_grown_keeps_inv(before);
            if res is Ok {
                page.lemma_wf();
                lemma_write_then_read(before.contents, location, page@);
                assert forall|k: usize|
                    #![trigger before.pages[k]]
                    before.pages.contains_key(k) && k != id@ implies page_bytes(
                    self@.contents,
                    before.pages[k],
                ) == page_bytes(before.contents, before.pages[k]) by {
                    lemma_write_keeps_other_pages(before, id@, k, page@);
                }
            }
        }
        match res {
            Ok(()) => Ok(()),
            Err(e) => Err(StoreError::Io(e)),
        }
    }

    /// Ends the session: flushes buffered writes, then persists the file's data, then
    /// its data and metadata, each step only after the one before succeeded; hands
    /// the file back, or the first failure.
    pub fn close(self) -> (r: Result<F, StoreError<F::Error>>)
        ensures
            r is Ok ==> r->Ok_0.contents() == self@.contents,
            r is Ok ==> r->Ok_0.ops() == self@.log + seq![
                FileOp::Flush,
                FileOp::SyncData,
                FileOp::SyncAll,
            ],
            r is Err ==> r->Err_0 is Io,
    {
        let mut file = self.file;
        if let Err(e) = file.flush() {
            return Err(StoreError::Io(e));
        }
        if let Err(e) = file.sync_data() {
            return Err(StoreError::Io(e));
        }
        if let Err(e) = file.sync_all() {
            return Err(StoreError::Io(e));
        }
        assert(file.ops() =~= self@.log + seq![FileOp::Flush, FileOp::SyncData, FileOp::SyncAll]);
        Ok(file)
    }
}

/// Writing a page at an offset inside the file and reading that offset back gives
/// the page written, and the file keeps its length.
pub proof fn lemma_write_then_read(c: Seq<u8>, offset: u64, p: PageModel)
    requires
        p.wf(),
        offset + PAGE_SIZE <= c.len(),
    ensures
        overwrite(c, offset as nat, encode(p)).len() == c.len(),
        page_bytes(overwrite(c, offset as nat, encode(p)), offset) == encode(p),
        decode(page_bytes(overwrite(c, offset as nat, encode(p)), offset)) == p,
{
    lemma_encode_len(p);
    lemma_decode_encode(p);
    assert(page_bytes(overwrite(c, offset as nat, encode(p)), offset) =~= encode(p));
}

/// Writing a page leaves every other page of the table byte for byte as it was.
pub proof fn lemma_write_keeps_other_pages(m: StoreModel, id: usize, other: usize, p: PageModel)
    requires
        m.wf(),
        p.wf(),
        m.pages.contains_key(id),
        m.pages.contains_key(other),
        id != other,
    ensures
        page_bytes(overwrite(m.contents, m.pages[id] as nat, encode(p)), m.pages[other])
            == page_bytes(m.contents, m.pages[other]),
{
    lemma_encode_len(p);
    let a = m.pages[id];
    let b = m.pages[other];
    assert(a != b);
    assert(a % 4096 == 0 && b % 4096 == 0);
    assert(a + PAGE_SIZE <= b || b + PAGE_SIZE <= a);
    assert(page_bytes(overwrite(m.contents, a as nat, encode(p)), b) =~= page_bytes(
        m.contents,
        b,
    ));
}

/// In a well-formed store the allocated pages have pairwise distinct, page-aligned
/// offsets inside the file, and the page count is the number of distinct handles.
pub proof fn lemma_pages_distinct(m: StoreModel)
    requires
        m.wf(),
    ensures
        forall|a: usize, b: usize|
            #![trigger m.pages[a], m.pages[b]]
            m.pages.contains_key(a) && m.pages.contains_key(b) && a != b ==> m.pages[a]
                != m.pages[b],
        forall|a: usize| #[trigger]
            m.pages.contains_key(a) ==> m.pages[a] % 4096 == 0 && m.pages[a] + PAGE_SIZE
                <= m.contents.len(),
        m.count == m.pages.dom().len(),
{
}

/// Adding a handle that is new to the table at the end of the file adds exactly one
/// handle, and the page count still equals the number of handles.
pub proof fn lemma_allocation_fresh(before: StoreModel, id: usize, after: StoreModel)
    requires
        before.wf(),
        !before.pages.contains_key(id),
        after.pages == before.pages.insert(id, before.contents.len() as u64),
        after.count == before.count + 1,
    ensures
        after.pages.dom().len() == before.pages.dom().len() + 1,
        after.count == after.pages.dom().len(),
{
    assert(after.pages.dom() =~= before.pages.dom().insert(id));
}

/// Handles drawn one after another from one counter are distinct and increase, so
/// stores that share a counter never hand out the same handle.
pub proof fn lemma_handles_increase(first: PageId, first_from: nat, second: PageId, second_from: nat)
    requires
        first@ == first_from,
        second@ == second_from,
        first_from < second_from,
    ensures
        first@ < second@,
        first != second,
{
}

} // verus!
