use std::collections::hash_map::DefaultHasher;
use std::hash::Hasher;
use vstd::prelude::*;
use vstd::std_specs::hash::DefaultHasherAdditionalSpecFns;

verus! {

/// Version number that a store reports in its metadata.
pub const STORE_VERSION: u32 = 1;

/// Eight bytes of `v`, least significant first.
pub open spec fn le_bytes_u64(v: u64) -> Seq<u8> {
    Seq::new(8, |i: int| ((v >> (8 * i) as u64) & 0xff) as u8)
}

/// Four bytes of `v`, least significant first.
pub open spec fn le_bytes_u32(v: u32) -> Seq<u8> {
    Seq::new(4, |i: int| ((v >> (8 * i) as u32) & 0xff) as u8)
}

/// The signature of metadata with these fields: the default hasher's digest of
/// the capacity, the entry count and the version, written in that order.
pub open spec fn signature_of(capacity: u64, num_entries: u32, version: u32) -> u64 {
    DefaultHasher::spec_finish(
        seq![le_bytes_u64(capacity), le_bytes_u32(num_entries), le_bytes_u32(version)],
    )
}

fn u64_le(v: u64) -> (r: Vec<u8>)
    ensures
        r@ == le_bytes_u64(v),
{
    let mut out: Vec<u8> = Vec::with_capacity(8);
    let mut i: u64 = 0;
    while i < 8
        invariant
            i <= 8,
            out@ =~= le_bytes_u64(v).subrange(0, i as int),
        decreases 8 - i,
    {
        out.push(((v >> (8 * i)) & 0xff) as u8);
        i = i + 1;
    }
    out
}

fn u32_le(v: u32) -> (r: Vec<u8>)
    ensures
        r@ == le_bytes_u32(v),
{
    let mut out: Vec<u8> = Vec::with_capacity(4);
    let mut i: u32 = 0;
    while i < 4
        invariant
            i <= 4,
            out@ =~= le_bytes_u32(v).subrange(0, i as int),
        decreases 4 - i,
    {
        out.push(((v >> (8 * i)) & 0xff) as u8);
        i = i + 1;
    }
    out
}

/// Diagnostic figures of a store: its file size, an entry count, a format version
/// and a signature over the other three.
pub struct StoreMetaData {
    capacity: u64,
    num_entries: u32,
    signature: u64,
    version: u32,
}

/// Abstract value of store metadata.
pub struct MetaDataModel {
    pub capacity: u64,
    pub num_entries: u32,
    pub signature: u64,
    pub version: u32,
}

impl View for StoreMetaData {
    type V = MetaDataModel;

    closed spec fn view(&self) -> MetaDataModel {
        MetaDataModel {
            capacity: self.capacity,
            num_entries: self.num_entries,
            signature: self.signature,
            version: self.version,
        }
    }
}

impl StoreMetaData {
    /// Metadata with every field zero.
    pub fn new() -> (r: StoreMetaData)
        ensures
            r@ == (MetaDataModel { capacity: 0, num_entries: 0, signature: 0, version: 0 }),
    {
        StoreMetaData { capacity: 0, num_entries: 0, signature: 0, version: 0 }
    }

    /// Metadata for a file of `capacity` bytes, with its signature filled in.
    pub fn signed(capacity: u64, num_entries: u32, version: u32) -> (r: StoreMetaData)
        ensures
            r@ == (MetaDataModel {
                capacity,
                num_entries,
                signature: signature_of(capacity, num_entries, version),
                version,
            }),
    {
        let mut m = StoreMetaData { capacity, num_entries, signature: 0, version };
        m.signature = m.calculate_signature();
        m
    }

    /// The file size in bytes.
    pub fn get_capacity(&self) -> (r: u64)
        ensures
            r == self@.capacity,
    {
        self.capacity
    }

    /// The entry count.
    pub fn get_entries(&self) -> (r: u32)
        ensures
            r == self@.num_entries,
    {
        self.num_entries
    }

    /// The stored signature.
    pub fn get_signature(&self) -> (r: u64)
        ensures
            r == self@.signature,
    {
        self.signature
    }

    /// The format version.
    pub fn get_version(&self) -> (r: u32)
        ensures
            r == self@.version,
    {
        self.version
    }

    /// The signature of the capacity, entry count and version, as they stand now.
    pub fn calculate_signature(&self) -> (r: u64)
        ensures
            r == signature_of(self@.capacity, self@.num_entries, self@.version),
    {
        let mut hasher = DefaultHasher::new();
        let cap = u64_le(self.capacity);
        let entries = u32_le(self.num_entries);
        let version = u32_le(self.version);
        hasher.write(cap.as_slice());
        hasher.write(entries.as_slice());
        hasher.write(version.as_slice());
        let r = hasher.finish();
        assert(hasher@ =~= seq![cap@, entries@, version@]);
        r
    }
}

/// Metadata could not be gathered because the backing file failed.
#[derive(Debug)]
pub struct MetaDataError<E> {
    details: E,
}

impl<E> MetaDataError<E> {
    /// Wraps the file's error.
    pub fn from(details: E) -> (r: MetaDataError<E>)
        ensures
            r.spec_details() == details,
    {
        MetaDataError { details }
    }

    /// The file's error.
    pub closed spec fn spec_details(&self) -> E {
        self.details
    }

    /// The file's error.
    pub fn details(&self) -> (r: &E)
        ensures
            *r == self.spec_details(),
    {
        &self.details
    }
}

} // verus!
