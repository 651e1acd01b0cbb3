//! The offset-addressable source abstraction: one "read N bytes at an
//! absolute offset" capability over heterogeneous backing stores, plus the
//! conversion trait that turns a backing store into such a source and its
//! total length.
//!
//! A source is *faithful* when its whole content is a value this library
//! can reason about (an in-memory buffer).  Every content claim in the
//! contracts is conditioned on faithfulness; a shared stream promises only
//! structural bounds.

use vstd::prelude::*;
use crate::bytes::{copy_bytes, copy_range};
use crate::entry::RawEntry;
use crate::error::{Error, ErrorView, IoKind};
use crate::zip_codec::{entry_opts, list_entries_of_vec, zip_open_of};

verus! {

#[verifier::external_type_specification]
#[verifier::external_body]
#[verifier::reject_recursive_types(T)]
pub struct ExMutex<T: ?Sized>(std::sync::Mutex<T>);

/// An offset-addressable, duplicable source of archive bytes.
pub trait ReadAt: Sized {
    /// The bytes the source holds, as far as this library can know them.
    spec fn content(&self) -> Seq<u8>;

    /// Whether `content()` really is the source's data, so that reads are
    /// pinned down by it.
    spec fn faithful(&self) -> bool;

    /// Read up to `len` bytes at `offset`.  A faithful source fails
    /// exactly when the offset lies at or past the end, with an
    /// invalid-input error, and otherwise returns the bytes at `offset`,
    /// short only at the end of the data.
    fn read_at(&self, offset: u64, len: usize) -> (r: Result<Vec<u8>, Error>)
        ensures
            (r matches Ok(v) ==> v@.len() <= len),
            self.faithful() ==> match r {
                Ok(v) => {
                    &&& (offset as int) < self.content().len()
                    &&& v@.len() == (if offset + len <= self.content().len() {
                        len as int
                    } else {
                        self.content().len() - offset
                    })
                    &&& v@ == self.content().subrange(offset as int, offset + v@.len())
                },
                Err(e) => offset >= self.content().len() && (match e@ {
                    ErrorView::Io { kind, .. } => kind is InvalidInput,
                    _ => false,
                }),
            },
    ;

    /// Read exactly `len` bytes at `offset`.  A faithful source fails
    /// exactly when the requested range does not lie within the data,
    /// with an unexpected-end error.
    fn read_exact_at(&self, offset: u64, len: usize) -> (r: Result<Vec<u8>, Error>)
        ensures
            (r matches Ok(v) ==> v@.len() == len),
            self.faithful() ==> match r {
                Ok(v) => offset + len <= self.content().len() && v@
                    == self.content().subrange(offset as int, offset + len),
                Err(e) => offset + len > self.content().len() && (match e@ {
                    ErrorView::Io { kind, .. } => kind is UnexpectedEof,
                    _ => false,
                }),
            },
    ;

    /// A second handle onto the same data, for concurrent readers.
    fn duplicate(&self) -> (r: Self)
        ensures
            r.content() == self.content(),
            r.faithful() == self.faithful(),
    ;

    /// Enumerate the archive entries stored in this source, one slot per
    /// central-directory entry.  For a faithful source the outcome is the
    /// parse of its content.
    fn entries(&self) -> (r: Result<Vec<Result<RawEntry, Error>>, Error>)
        ensures
            self.faithful() ==> match r {
                Ok(v) => zip_open_of(self.content()) == Some(entry_opts(v@)),
                Err(_) => zip_open_of(self.content()) is None,
            },
    ;
}

/// Conversion of a backing store into a source plus its total length.
pub trait ReadAtLen {
    /// The source this store converts into.
    type ReadAt: ReadAt;

    /// The bytes the store holds, as far as this library can know them.
    spec fn source_bytes(&self) -> Seq<u8>;

    /// Whether `source_bytes()` really is the store's data.  An in-memory
    /// store is faithful; a caller-supplied stream is not.
    spec fn source_faithful(&self) -> bool;

    /// Acquire the source and its length in bytes.  A faithful store
    /// always converts, into a faithful source carrying exactly its
    /// bytes.
    fn into_read_at_len(self) -> (r: Result<(Self::ReadAt, u64), Error>)
        ensures
            self.source_faithful() ==> r is Ok,
            r matches Ok((ra, len)) ==> ra.faithful() == self.source_faithful(),
            (r matches Ok((ra, len)) ==> (self.source_faithful() ==> ra.content()
                == self.source_bytes() && len == self.source_bytes().len())),
    ;
}

/// An in-memory byte buffer serving as a faithful source.
pub struct SeeklessBlob {
    data: Vec<u8>,
}

impl SeeklessBlob {
    /// Wrap a byte buffer.
    pub fn new(data: Vec<u8>) -> (r: SeeklessBlob)
        ensures
            r.content() == data@,
            r.faithful(),
    {
        SeeklessBlob { data }
    }

    /// The number of bytes held.
    pub fn len(&self) -> (n: usize)
        ensures
            n == self.content().len(),
    {
        self.data.len()
    }
}

impl ReadAt for SeeklessBlob {
    closed spec fn content(&self) -> Seq<u8> {
        self.data@
    }

    open spec fn faithful(&self) -> bool {
        true
    }

    fn read_at(&self, offset: u64, len: usize) -> (r: Result<Vec<u8>, Error>) {
        let total = self.data.len();
        if offset >= total as u64 {
            return Err(Error::Io {
                kind: IoKind::InvalidInput,
                message: "attempted to read past the end of the buffer".to_owned(),
            });
        }
        let off = offset as usize;
        let n = if len <= total - off {
            len
        } else {
            total - off
        };
        Ok(copy_range(&self.data, off, off + n))
    }

    fn read_exact_at(&self, offset: u64, len: usize) -> (r: Result<Vec<u8>, Error>) {
        let total = self.data.len();
        if len > total || offset > (total - len) as u64 {
            return Err(Error::Io {
                kind: IoKind::UnexpectedEof,
                message: "fewer bytes available than requested".to_owned(),
            });
        }
        let off = offset as usize;
        Ok(copy_range(&self.data, off, off + len))
    }

    fn duplicate(&self) -> (r: SeeklessBlob) {
        SeeklessBlob { data: copy_bytes(&self.data) }
    }

    fn entries(&self) -> (r: Result<Vec<Result<RawEntry, Error>>, Error>) {
        list_entries_of_vec(copy_bytes(&self.data))
    }
}

impl ReadAtLen for Vec<u8> {
    type ReadAt = SeeklessBlob;

    open spec fn source_bytes(&self) -> Seq<u8> {
        self@
    }

    open spec fn source_faithful(&self) -> bool {
        true
    }

    fn into_read_at_len(self) -> (r: Result<(SeeklessBlob, u64), Error>) {
        let n = self.len();
        Ok((SeeklessBlob::new(self), n as u64))
    }
}

impl ReadAtLen for SeeklessBlob {
    type ReadAt = SeeklessBlob;

    open spec fn source_bytes(&self) -> Seq<u8> {
        self.content()
    }

    open spec fn source_faithful(&self) -> bool {
        true
    }

    fn into_read_at_len(self) -> (r: Result<(SeeklessBlob, u64), Error>) {
        let n = self.len();
        Ok((self, n as u64))
    }
}

/// A caller-supplied sequential stream: something that can seek and
/// read.  Implement it for the backing store (a file, a socket buffer)
/// and hand it to [`SeeklessSharedIO::new`]; the library serializes all
/// access behind a lock.  Nothing is promised of these methods, so
/// nothing verified rests on how they behave.
pub trait SeekRead {
    /// Position the stream at `pos` bytes from its start.
    fn sr_seek_start(&mut self, pos: u64) -> Result<(), Error>;

    /// The stream's total length in bytes, found by seeking its end.
    fn sr_len(&mut self) -> Result<u64, Error>;

    /// Read up to `len` bytes at the current position.
    fn sr_read(&mut self, len: usize) -> Result<Vec<u8>, Error>;

    /// Read exactly `len` bytes at the current position.
    fn sr_read_exact(&mut self, len: usize) -> Result<Vec<u8>, Error>;
}

/// A sequential stream behind a lock, shared by reference counting;
/// reads seek it under the lock.  Its content is unknown to this library,
/// so it is not faithful and its reads promise only structural bounds.
#[verifier::reject_recursive_types(IO)]
pub struct SeeklessSharedIO<IO> {
    io: std::sync::Arc<std::sync::Mutex<IO>>,
}

impl<IO: SeekRead> SeeklessSharedIO<IO> {
    /// Relies on `Arc::new` and `Mutex::new`: wrap an owned stream for
    /// shared, serialized access.
    #[verifier::external_body]
    pub fn new(io: IO) -> (r: SeeklessSharedIO<IO>)
    {
        SeeklessSharedIO { io: std::sync::Arc::new(std::sync::Mutex::new(io)) }
    }

    /// Relies on `Mutex::lock`: one serialized positional read through
    /// the stream's own seek and read; the buffer is truncated to the
    /// request, so the length bound holds by construction.
    #[verifier::external_body]
    fn locked_read_at(&self, offset: u64, len: usize) -> (r: Result<Vec<u8>, Error>)
        ensures
            r matches Ok(v) ==> v@.len() <= len,
    {
        let mut g = self.io.lock().map_err(
            |_| Error::Other { message: "poisoned lock".to_string() },
        )?;
        g.sr_seek_start(offset)?;
        let mut v = g.sr_read(len)?;
        v.truncate(len);
        Ok(v)
    }

    /// Relies on `Mutex::lock`: one serialized exact positional read; a
    /// stream answer of the wrong length is turned into an error, so the
    /// length claim holds by construction.
    #[verifier::external_body]
    fn locked_read_exact_at(&self, offset: u64, len: usize) -> (r: Result<Vec<u8>, Error>)
        ensures
            r matches Ok(v) ==> v@.len() == len,
    {
        let mut g = self.io.lock().map_err(
            |_| Error::Other { message: "poisoned lock".to_string() },
        )?;
        g.sr_seek_start(offset)?;
        let v = g.sr_read_exact(len)?;
        if v.len() != len {
            return Err(Error::Io {
                kind: IoKind::UnexpectedEof,
                message: "stream returned the wrong number of bytes".to_string(),
            });
        }
        Ok(v)
    }

    /// Relies on `Arc::clone`: a second handle onto the same stream.
    #[verifier::external_body]
    fn clone_handle(&self) -> (r: SeeklessSharedIO<IO>)
    {
        SeeklessSharedIO { io: std::sync::Arc::clone(&self.io) }
    }

    /// Relies on `Mutex::lock`: the stream's length through its own seek.
    #[verifier::external_body]
    fn locked_len(&self) -> (r: Result<u64, Error>)
    {
        let mut g = self.io.lock().map_err(
            |_| Error::Other { message: "poisoned lock".to_string() },
        )?;
        g.sr_len()
    }
}

impl<IO: SeekRead> ReadAt for SeeklessSharedIO<IO> {
    closed spec fn content(&self) -> Seq<u8> {
        Seq::empty()
    }

    closed spec fn faithful(&self) -> bool {
        false
    }

    fn read_at(&self, offset: u64, len: usize) -> (r: Result<Vec<u8>, Error>) {
        self.locked_read_at(offset, len)
    }

    fn read_exact_at(&self, offset: u64, len: usize) -> (r: Result<Vec<u8>, Error>) {
        self.locked_read_exact_at(offset, len)
    }

    fn duplicate(&self) -> (r: SeeklessSharedIO<IO>) {
        self.clone_handle()
    }

    fn entries(&self) -> (r: Result<Vec<Result<RawEntry, Error>>, Error>) {
        // Bring the archive into memory once and enumerate it there: the
        // container parser cannot run over the locked stream directly.
        let len = self.locked_len()?;
        if len > usize::MAX as u64 {
            return Err(Error::Unsupported { message: "archive too large to index" });
        }
        let bytes = self.locked_read_exact_at(0, len as usize)?;
        list_entries_of_vec(bytes)
    }
}

impl<IO: SeekRead> ReadAtLen for SeeklessSharedIO<IO> {
    type ReadAt = SeeklessSharedIO<IO>;

    closed spec fn source_bytes(&self) -> Seq<u8> {
        Seq::empty()
    }

    closed spec fn source_faithful(&self) -> bool {
        false
    }

    fn into_read_at_len(self) -> (r: Result<(SeeklessSharedIO<IO>, u64), Error>) {
        let len = self.locked_len()?;
        Ok((self, len))
    }
}

} // verus!
