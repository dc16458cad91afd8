use vstd::prelude::*;

verus! {

/// The file after writing `data` at `pos`: bytes before `pos` are kept, a gap past
/// the old end reads as zeros, and the file grows if the write runs past its end.
pub open spec fn overwrite(c: Seq<u8>, pos: nat, data: Seq<u8>) -> Seq<u8> {
    let end = if pos + data.len() > c.len() {
        pos + data.len()
    } else {
        c.len()
    };
    Seq::new(
        end as nat,
        |i: int|
            if pos <= i < pos + data.len() {
                data[i - pos]
            } else if i < c.len() {
                c[i]
            } else {
                0u8
            },
    )
}

/// A durability request that a file carried out.
#[derive(Debug, Clone, Copy, PartialEq, Eq, Structural)]
pub enum FileOp {
    /// Buffered writes were handed to the operating system.
    Flush,
    /// The file's data was persisted.
    SyncData,
    /// The file's data and metadata were persisted.
    SyncAll,
}

/// The bytes a file holds, as its model states them.
pub type FileBytes = Seq<u8>;

/// A position in a file, as its model states it.
pub type FilePosition = nat;

/// The durability requests a file carried out, oldest first.
pub type FileLog = Seq<FileOp>;

/// A file that can be positioned, written, read and made durable.
///
/// Its state is the bytes it holds, the position of its cursor and the log of the
/// durability requests it carried out. Reading, seeking, flushing and syncing never
/// change the bytes; writing never shortens them. Each successful flush or sync adds
/// itself to the log; nothing else changes the log.
pub trait SyncFile {
    type Error;

    /// The bytes the file holds.
    spec fn contents(&self) -> FileBytes;

    /// Where the next read or write starts.
    spec fn cursor(&self) -> FilePosition;

    /// The durability requests carried out so far.
    spec fn ops(&self) -> FileLog;

    /// The length of the file in bytes.
    fn len(&self) -> (r: Result<u64, Self::Error>)
        ensures
            r is Ok ==> r->Ok_0 == self.contents().len(),
    ;

    /// Moves the cursor to the absolute offset `pos`.
    fn seek(&mut self, pos: u64) -> (r: Result<u64, Self::Error>)
        ensures
            final(self).contents() == old(self).contents(),
            final(self).ops() == old(self).ops(),
            r is Ok ==> r->Ok_0 == pos && final(self).cursor() == pos,
    ;

    /// Writes all of `buf` at the cursor and moves the cursor past it.
    fn write_all(&mut self, buf: &[u8]) -> (r: Result<(), Self::Error>)
        ensures
            final(self).contents().len() >= old(self).contents().len(),
            final(self).ops() == old(self).ops(),
            r is Ok ==> final(self).contents() == overwrite(
                old(self).contents(),
                old(self).cursor(),
                buf@,
            ) && final(self).cursor() == old(self).cursor() + buf@.len(),
    ;

    /// Reads exactly `n` bytes at the cursor and moves the cursor past them;
    /// fails if fewer than `n` bytes remain.
    fn read_exact(&mut self, n: usize) -> (r: Result<Vec<u8>, Self::Error>)
        ensures
            final(self).contents() == old(self).contents(),
            final(self).ops() == old(self).ops(),
            r is Ok ==> old(self).cursor() + n <= old(self).contents().len() && r->Ok_0@
                == old(self).contents().subrange(
                old(self).cursor() as int,
                old(self).cursor() + n,
            ) && final(self).cursor() == old(self).cursor() + n,
    ;

    /// Hands buffered writes on to the operating system.
    fn flush(&mut self) -> (r: Result<(), Self::Error>)
        ensures
            final(self).contents() == old(self).contents(),
            r is Ok ==> final(self).ops() == old(self).ops().push(FileOp::Flush),
            r is Err ==> final(self).ops() == old(self).ops(),
    ;

    /// Asks the operating system to persist the file's data.
    fn sync_data(&mut self) -> (r: Result<(), Self::Error>)
        ensures
            final(self).contents() == old(self).contents(),
            r is Ok ==> final(self).ops() == old(self).ops().push(FileOp::SyncData),
            r is Err ==> final(self).ops() == old(self).ops(),
    ;

    /// Asks the operating system to persist the file's data and metadata.
    fn sync_all(&mut self) -> (r: Result<(), Self::Error>)
        ensures
            final(self).contents() == old(self).contents(),
            r is Ok ==> final(self).ops() == old(self).ops().push(FileOp::SyncAll),
            r is Err ==> final(self).ops() == old(self).ops(),
    ;
}

/// Why an in-memory file refused an operation.
#[derive(Debug, PartialEq, Eq, Structural, Clone, Copy)]
pub enum MemFileError {
    /// Fewer bytes remain after the cursor than were asked for.
    UnexpectedEof,
    /// The position does not fit in memory.
    OutOfRange,
}

/// A file held in memory, which records whether it was flushed and synced, and
/// the order of its durability requests.
pub struct MockFile {
    flushed: bool,
    synced: bool,
    log: Vec<FileOp>,
    data: Vec<u8>,
    pos: u64,
}

impl MockFile {
    /// Whether `flush` has been called.
    pub closed spec fn flush_seen(&self) -> bool {
        self.flushed
    }

    /// Whether the synced flag is set: by `sync_data`, `sync_all` or `set_synced`.
    pub closed spec fn sync_seen(&self) -> bool {
        self.synced
    }

    /// Whether `flush` has been called.
    pub fn is_flushed(&self) -> (r: bool)
        ensures
            r == self.flush_seen(),
    {
        self.flushed
    }

    /// Whether the synced flag is set.
    pub fn is_synced(&self) -> (r: bool)
        ensures
            r == self.sync_seen(),
    {
        self.synced
    }

    /// An empty file with the cursor at 0, neither flushed nor synced.
    pub fn new() -> (r: MockFile)
        ensures
            r.contents() == Seq::<u8>::empty(),
            r.cursor() == 0,
            r.ops() == Seq::<FileOp>::empty(),
            !r.flush_seen(),
            !r.sync_seen(),
    {
        MockFile { flushed: false, synced: false, log: Vec::new(), data: Vec::new(), pos: 0 }
    }

    /// A file that holds `data`, with the cursor at 0.
    pub fn from_bytes(data: Vec<u8>) -> (r: MockFile)
        ensures
            r.contents() == data@,
            r.cursor() == 0,
            r.ops() == Seq::<FileOp>::empty(),
            !r.flush_seen(),
            !r.sync_seen(),
    {
        MockFile { flushed: false, synced: false, log: Vec::new(), data, pos: 0 }
    }

    /// Sets the synced flag.
    pub fn set_synced(&mut self, synced: bool)
        ensures
            final(self).sync_seen() == synced,
            final(self).flush_seen() == old(self).flush_seen(),
            final(self).contents() == old(self).contents(),
            final(self).cursor() == old(self).cursor(),
            final(self).ops() == old(self).ops(),
    {
        self.synced = synced;
    }

    /// The durability requests carried out so far, oldest first.
    pub fn ops_log(&self) -> (r: &Vec<FileOp>)
        ensures
            r@ == self.ops(),
    {
        &self.log
    }

    /// The bytes the file holds.
    pub fn bytes(&self) -> (r: &Vec<u8>)
        ensures
            r@ == self.contents(),
    {
        &self.data
    }
}

impl SyncFile for MockFile {
    type Error = MemFileError;

    closed spec fn contents(&self) -> Seq<u8> {
        self.data@
    }

    closed spec fn cursor(&self) -> nat {
        self.pos as nat
    }

    closed spec fn ops(&self) -> Seq<FileOp> {
        self.log@
    }

    fn len(&self) -> (r: Result<u64, MemFileError>)
        ensures
            r is Ok,
    {
        if self.data.len() as u64 as usize == self.data.len() {
            Ok(self.data.len() as u64)
        } else {
            Err(MemFileError::OutOfRange)
        }
    }

    fn seek(&mut self, pos: u64) -> (r: Result<u64, MemFileError>)
        ensures
            r is Ok,
            final(self).flush_seen() == old(self).flush_seen(),
            final(self).sync_seen() == old(self).sync_seen(),
    {
        self.pos = pos;
        Ok(pos)
    }

    fn write_all(&mut self, buf: &[u8]) -> (r: Result<(), MemFileError>)
        ensures
            r is Ok <==> old(self).cursor() + buf@.len() <= usize::MAX,
            r is Err ==> r == Err::<(), MemFileError>(MemFileError::OutOfRange) && *final(self)
                == *old(self),
            final(self).flush_seen() == old(self).flush_seen(),
            final(self).sync_seen() == old(self).sync_seen(),
    {
        let pos = self.pos as usize;
        if pos as u64 != self.pos || buf.len() > usize::MAX - pos || buf.len() as u64 as usize
            != buf.len() || buf.len() as u64 > u64::MAX - self.pos {
            return Err(MemFileError::OutOfRange);
        }
        let ghost c = self.data@;
        while self.data.len() < pos
            invariant
                pos + buf@.len() <= usize::MAX,
                pos as u64 == self.pos == old(self).pos,
                self.flushed == old(self).flushed,
                self.synced == old(self).synced,
                self.log@ == old(self).log@,
                buf@.len() + self.pos <= u64::MAX,
                c == old(self).data@,
                c.len() <= self.data@.len(),
                forall|i: int| 0 <= i < c.len() ==> self.data@[i] == c[i],
                forall|i: int| c.len() <= i < self.data@.len() ==> self.data@[i] == 0u8,
                self.data@.len() <= pos || self.data@.len() == c.len(),
            decreases pos - self.data@.len(),
        {
            self.data.push(0u8);
        }
        let mut i: usize = 0;
        while i < buf.len()
            invariant
                pos + buf@.len() <= usize::MAX,
                pos as u64 == self.pos == old(self).pos,
                self.flushed == old(self).flushed,
                self.synced == old(self).synced,
                self.log@ == old(self).log@,
                buf@.len() + self.pos <= u64::MAX,
                c == old(self).data@,
                i <= buf@.len(),
                self.data@.len() >= pos + i,
                self.data@.len() == if pos + i > c.len() {
                    (pos + i) as nat
                } else {
                    c.len()
                },
                forall|k: int|
                    0 <= k < self.data@.len() ==> self.data@[k] == (if pos <= k < pos + i {
                        buf@[k - pos]
                    } else if k < c.len() {
                        c[k]
                    } else {
                        0u8
                    }),
            decreases buf@.len() - i,
        {
            if pos + i < self.data.len() {
                self.data.set(pos + i, buf[i]);
            } else {
                self.data.push(buf[i]);
            }
            i = i + 1;
        }
        self.pos = self.pos + buf.len() as u64;
        assert(self.data@ =~= overwrite(c, old(self).pos as nat, buf@));
        Ok(())
    }

    fn read_exact(&mut self, n: usize) -> (r: Result<Vec<u8>, MemFileError>)
        ensures
            r is Ok <==> old(self).cursor() + n <= old(self).contents().len(),
            r is Err ==> r == Err::<Vec<u8>, MemFileError>(MemFileError::UnexpectedEof)
                && *final(self) == *old(self),
            final(self).flush_seen() == old(self).flush_seen(),
            final(self).sync_seen() == old(self).sync_seen(),
    {
        let len = self.data.len();
        let pos = self.pos as usize;
        if pos as u64 != self.pos || pos > len || n > len - pos {
            return Err(MemFileError::UnexpectedEof);
        }
        let mut out: Vec<u8> = Vec::with_capacity(n);
        let mut i: usize = 0;
        while i < n
            invariant
                pos + n <= len == self.data@.len(),
                i <= n,
                out@ == self.data@.subrange(pos as int, pos + i),
            decreases n - i,
        {
            out.push(self.data[pos + i]);
            i = i + 1;
            assert(out@ =~= self.data@.subrange(pos as int, pos + i));
        }
        self.pos = (pos + n) as u64;
        Ok(out)
    }

    fn flush(&mut self) -> (r: Result<(), MemFileError>)
        ensures
            r is Ok,
            final(self).flush_seen(),
            final(self).sync_seen() == old(self).sync_seen(),
            final(self).cursor() == old(self).cursor(),
    {
        self.flushed = true;
        self.log.push(FileOp::Flush);
        Ok(())
    }

    fn sync_data(&mut self) -> (r: Result<(), MemFileError>)
        ensures
            r is Ok,
            final(self).sync_seen(),
            final(self).flush_seen() == old(self).flush_seen(),
            final(self).cursor() == old(self).cursor(),
    {
        self.synced = true;
        self.log.push(FileOp::SyncData);
        Ok(())
    }

    fn sync_all(&mut self) -> (r: Result<(), MemFileError>)
        ensures
            r is Ok,
            final(self).sync_seen(),
            final(self).flush_seen() == old(self).flush_seen(),
            final(self).cursor() == old(self).cursor(),
    {
        self.synced = true;
        self.log.push(FileOp::SyncAll);
        Ok(())
    }
}

} // verus!
