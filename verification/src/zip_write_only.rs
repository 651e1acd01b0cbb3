//! The write-only archive filesystem: directories are registered eagerly,
//! each opened file accumulates its bytes in memory, and a handle's close
//! commits them into one shared, lock-protected archive writer.  A strong
//! handle keeps the writer alive; a weak handle silently discards its
//! bytes once the filesystem is gone.

use vstd::prelude::*;
use crate::bytes::copy_bytes;
use crate::error::{Error, VfsError};
use crate::path_index::{lemma_names_push_to_set, names_seq, names_unique};
use crate::path_norm::{
    dir_norm_ok, dir_norm_path, file_norm_ok, normalize_file, normalize_path_dir, strip_lead,
};
use crate::vfs_meta::{VfsFileType, VfsMetadata};
use crate::zip_codec::zip_error_to_error;

verus! {

/// The one shared archive writer, building the container in memory
/// behind a lock.  Verus sees nothing inside: every operation on it is a
/// trusted item, and the archive-writer library's declaration cannot be
/// given to the verifier directly.
#[verifier::external_body]
pub struct SharedZipWriter {
    inner: std::sync::Arc<
        std::sync::Mutex<zip::write::ZipWriter<std::io::Cursor<Vec<u8>>>>,
    >,
}

/// A non-owning handle onto the shared archive writer: committing through
/// it silently does nothing once every owning handle is gone.
#[verifier::external_body]
pub struct WeakZipWriter {
    inner: std::sync::Weak<
        std::sync::Mutex<zip::write::ZipWriter<std::io::Cursor<Vec<u8>>>>,
    >,
}

impl SharedZipWriter {
    /// Relies on `zip::write::ZipWriter::new`, `Arc::new` and
    /// `Mutex::new`: a fresh archive writer over an in-memory buffer.
    #[verifier::external_body]
    fn new() -> (r: SharedZipWriter)
    {
        SharedZipWriter {
            inner: std::sync::Arc::new(
                std::sync::Mutex::new(
                    zip::write::ZipWriter::new(std::io::Cursor::new(Vec::new())),
                ),
            ),
        }
    }

    /// Relies on `Arc::clone`: another owning handle.
    #[verifier::external_body]
    fn clone_strong(&self) -> (r: SharedZipWriter)
    {
        SharedZipWriter { inner: std::sync::Arc::clone(&self.inner) }
    }

    /// Relies on `Arc::downgrade`: a non-owning handle.
    #[verifier::external_body]
    fn downgrade(&self) -> (r: WeakZipWriter)
    {
        WeakZipWriter { inner: std::sync::Arc::downgrade(&self.inner) }
    }

    /// Relies on `Mutex::lock` and `zip::write::ZipWriter::add_directory`:
    /// record a directory entry in the archive.
    #[verifier::external_body]
    fn add_directory(&self, name: &Vec<u8>) -> (r: Result<(), Error>)
    {
        let mut g = self.inner.lock().map_err(
            |_| Error::Other { message: "poisoned lock".to_string() },
        )?;
        g.add_directory(
            String::from_utf8_lossy(name).into_owned(),
            zip::write::SimpleFileOptions::default(),
        ).map_err(zip_error_to_error)
    }

    /// Relies on `Mutex::lock` and `zip::write::ZipWriter::start_file`:
    /// begin a new file entry at the archive's current position.
    #[verifier::external_body]
    fn start_file(&self, name: &Vec<u8>) -> (r: Result<(), Error>)
    {
        let mut g = self.inner.lock().map_err(
            |_| Error::Other { message: "poisoned lock".to_string() },
        )?;
        g.start_file(
            String::from_utf8_lossy(name).into_owned(),
            zip::write::SimpleFileOptions::default(),
        ).map_err(zip_error_to_error)
    }

    /// Relies on `Mutex::lock` and the writer's `std::io::Write` impl:
    /// append the buffered bytes to the entry being written.
    #[verifier::external_body]
    fn write_all(&self, buf: &Vec<u8>) -> (r: Result<(), Error>)
    {
        let mut g = self.inner.lock().map_err(
            |_| Error::Other { message: "poisoned lock".to_string() },
        )?;
        std::io::Write::write_all(&mut *g, buf).map_err(
            |e| Error::Other { message: e.to_string() },
        )
    }

    /// Relies on `Mutex::lock`, `std::mem::replace` and
    /// `zip::write::ZipWriter::finish`: write the central directory and
    /// hand back the whole archive's bytes, leaving a fresh writer behind.
    #[verifier::external_body]
    fn finish_bytes(&self) -> (r: Result<Vec<u8>, Error>)
    {
        let mut g = self.inner.lock().map_err(
            |_| Error::Other { message: "poisoned lock".to_string() },
        )?;
        let w = std::mem::replace(
            &mut *g,
            zip::write::ZipWriter::new(std::io::Cursor::new(Vec::new())),
        );
        let cur = w.finish().map_err(zip_error_to_error)?;
        Ok(cur.into_inner())
    }
}

impl WeakZipWriter {
    /// Relies on `Weak::upgrade`: recover an owning handle while the
    /// writer is still alive.
    #[verifier::external_body]
    fn upgrade(&self) -> (r: Option<SharedZipWriter>)
    {
        self.inner.upgrade().map(|inner| SharedZipWriter { inner })
    }
}

/// A caller-supplied destination for the finished archive bytes.
/// Nothing is promised of it, so nothing verified rests on its behavior.
pub trait WriteSink {
    /// Write the whole buffer to the destination.
    fn ws_write_all(&mut self, buf: &Vec<u8>) -> Result<(), Error>;
}

/// The shared writer reference a file handle carries: owning or not.
enum WriterRef {
    Strong(SharedZipWriter),
    Weak(WeakZipWriter),
}

/// An open output file: a validated target path and an in-memory byte
/// accumulator, committed into the shared writer on close.
pub struct ZipFileWriter {
    path: Vec<u8>,
    buffer: Vec<u8>,
    writer: WriterRef,
}

impl ZipFileWriter {
    /// The normalized path the bytes will be committed under.
    pub closed spec fn path_spec(&self) -> Seq<u8> {
        self.path@
    }

    /// The bytes accumulated so far.
    pub closed spec fn buffered(&self) -> Seq<u8> {
        self.buffer@
    }

    /// Whether this handle only weakly references the shared writer.
    pub closed spec fn is_weak(&self) -> bool {
        self.writer is Weak
    }

    /// Append the buffer's bytes to the accumulator; nothing reaches the
    /// shared writer yet.
    pub fn write(&mut self, buf: &Vec<u8>) -> (r: Result<usize, VfsError>)
        ensures
            final(self).path_spec() == old(self).path_spec(),
            final(self).is_weak() == old(self).is_weak(),
            final(self).buffered() == old(self).buffered() + buf@,
            r matches Ok(n) ==> n == buf@.len(),
            r is Ok,
    {
        let mut i: usize = 0;
        while i < buf.len()
            invariant
                i <= buf@.len(),
                self.buffer@ == old(self).buffer@ + buf@.subrange(0, i as int),
                self.path@ == old(self).path@,
                self.writer == old(self).writer,
            decreases buf@.len() - i,
        {
            self.buffer.push(buf[i]);
            i = i + 1;
            proof {
                assert(self.buffer@ =~= old(self).buffer@ + buf@.subrange(0, i as int));
            }
        }
        proof {
            assert(self.buffer@ =~= old(self).buffer@ + buf@);
        }
        Ok(buf.len())
    }

    /// Append the whole buffer, like `write`.
    pub fn write_all(&mut self, buf: &Vec<u8>) -> (r: Result<(), VfsError>)
        ensures
            final(self).path_spec() == old(self).path_spec(),
            final(self).is_weak() == old(self).is_weak(),
            final(self).buffered() == old(self).buffered() + buf@,
            r is Ok,
    {
        let _ = self.write(buf)?;
        Ok(())
    }

    /// Nothing is held back, so flushing never does anything.
    pub fn flush(&mut self) -> (r: Result<(), VfsError>)
        ensures
            *final(self) == *old(self),
            r is Ok,
    {
        Ok(())
    }

    /// Commit the accumulated bytes: start a file entry at the buffered
    /// path and write them, serialized by the shared writer's lock.  A
    /// weak handle whose writer is gone discards the bytes and reports
    /// success, which is what the weak mode is for.
    pub fn close(self) -> (r: Result<(), VfsError>)
        ensures
            r matches Err(ve) ==> !(ve matches VfsError::NotSupported) && !(
            ve matches VfsError::InvalidPath { .. }),
    {
        let w = match self.writer {
            WriterRef::Strong(w) => w,
            WriterRef::Weak(wk) => match wk.upgrade() {
                Some(w) => w,
                None => {
                    return Ok(());
                },
            },
        };
        match w.start_file(&self.path) {
            Ok(()) => {},
            Err(e) => {
                return Err(VfsError::IoError(e));
            },
        }
        match w.write_all(&self.buffer) {
            Ok(()) => Ok(()),
            Err(e) => Err(VfsError::IoError(e)),
        }
    }
}

/// A write-only archive filesystem.
pub struct ZipWriteOnly<W> {
    writer: SharedZipWriter,
    sink: W,
    dirs: Vec<Vec<u8>>,
    weak: bool,
}

impl<W: WriteSink> ZipWriteOnly<W> {
    /// The set of directory paths registered so far.
    pub closed spec fn dirs_set(&self) -> Set<Seq<u8>> {
        names_seq(self.dirs@).to_set()
    }

    /// Whether file handles reference the writer weakly.
    pub closed spec fn is_weak(&self) -> bool {
        self.weak
    }

    /// The registry holds each directory once.
    pub closed spec fn wf(&self) -> bool {
        names_unique(self.dirs@)
    }

    /// Open a write-only filesystem whose file handles keep the shared
    /// writer alive until each is closed.
    pub fn new_strong(sink: W) -> (r: Result<ZipWriteOnly<W>, Error>)
        ensures
            r is Ok,
            r matches Ok(z) ==> z.wf() && !z.is_weak() && z.dirs_set() == Set::<Seq<u8>>::empty(),
    {
        Self::new_impl(sink, false)
    }

    /// Open a write-only filesystem whose file handles reference the
    /// shared writer weakly: once the filesystem is dropped, outstanding
    /// handles discard their bytes on close.
    pub fn new_weak(sink: W) -> (r: Result<ZipWriteOnly<W>, Error>)
        ensures
            r is Ok,
            r matches Ok(z) ==> z.wf() && z.is_weak() && z.dirs_set() == Set::<Seq<u8>>::empty(),
    {
        Self::new_impl(sink, true)
    }

    /// Build the filesystem around a fresh in-memory archive writer.
    fn new_impl(sink: W, weak: bool) -> (r: Result<ZipWriteOnly<W>, Error>)
        ensures
            r is Ok,
            r matches Ok(z) ==> z.wf() && z.is_weak() == weak && z.dirs_set() == Set::<
                Seq<u8>,
            >::empty(),
    {
        let z = ZipWriteOnly { writer: SharedZipWriter::new(), sink, dirs: Vec::new(), weak };
        proof {
            assert(z.dirs_set() =~= Set::<Seq<u8>>::empty());
        }
        Ok(z)
    }

    /// Register a directory: the root always succeeds without touching
    /// the archive writer, and any other path is recorded with the
    /// writer and in the registry.
    pub fn create_dir(&mut self, path: &Vec<u8>) -> (r: Result<(), VfsError>)
        requires
            old(self).wf(),
        ensures
            final(self).wf(),
            final(self).is_weak() == old(self).is_weak(),
            dir_norm_ok(path@) && dir_norm_path(path@).len() == 0 ==> r is Ok,
            if !dir_norm_ok(path@) {
                &&& r matches Err(VfsError::InvalidPath { .. })
                &&& final(self).dirs_set() == old(self).dirs_set()
            } else {
                match r {
                    Ok(()) => final(self).dirs_set() == old(self).dirs_set().insert(
                        dir_norm_path(path@),
                    ),
                    Err(ve) => {
                        &&& final(self).dirs_set() == old(self).dirs_set()
                        &&& !(ve matches VfsError::NotSupported)
                        &&& !(ve matches VfsError::InvalidPath { .. })
                    },
                }
            },
    {
        let p = match normalize_path_dir(path) {
            Ok((p, _dir)) => p,
            Err(_) => {
                return Err(VfsError::InvalidPath { path: copy_bytes(path) });
            },
        };
        if p.len() > 0 {
            match self.writer.add_directory(&p) {
                Ok(()) => {},
                Err(e) => {
                    return Err(match e {
                        Error::FileNotFound => VfsError::FileNotFound { path: copy_bytes(path) },
                        Error::Unsupported { message } => VfsError::Other {
                            message: message.to_owned(),
                        },
                        other => VfsError::IoError(other),
                    });
                },
            }
        }
        self.register_dir(p);
        Ok(())
    }

    /// Record a directory path in the registry, once.
    fn register_dir(&mut self, p: Vec<u8>)
        requires
            old(self).wf(),
        ensures
            final(self).wf(),
            final(self).is_weak() == old(self).is_weak(),
            final(self).dirs_set() == old(self).dirs_set().insert(p@),
    {
        let ghost pv = p@;
        let present = self.has_registered_dir(&p);
        if present {
            proof {
                assert(final(self).dirs_set() =~= old(self).dirs_set().insert(pv));
            }
        } else {
            let ghost olddirs = self.dirs@;
            self.dirs.push(p);
            proof {
                assert(names_seq(self.dirs@) =~= names_seq(olddirs).push(pv));
                lemma_names_push_to_set(names_seq(olddirs), pv);
                assert(names_unique(self.dirs@)) by {
                    assert forall|a: int| 0 <= a < olddirs.len() implies #[trigger] olddirs[a]@
                        != pv by {
                        if olddirs[a]@ == pv {
                            assert(names_seq(olddirs)[a] == pv);
                            assert(old(self).dirs_set().contains(pv));
                        }
                    }
                }
            }
        }
    }

    /// Open a new output file: the handle accumulates bytes in memory and
    /// touches the shared writer only when closed.
    pub fn create_file(&self, path: &Vec<u8>) -> (r: Result<ZipFileWriter, VfsError>)
        ensures
            if file_norm_ok(path@) {
                match r {
                    Ok(h) => {
                        &&& h.path_spec() == strip_lead(path@)
                        &&& h.buffered() == Seq::<u8>::empty()
                        &&& h.is_weak() == self.is_weak()
                    },
                    Err(_) => false,
                }
            } else {
                r matches Err(VfsError::InvalidPath { .. })
            },
    {
        let p = match normalize_file(path) {
            Ok(p) => p,
            Err(_) => {
                return Err(VfsError::InvalidPath { path: copy_bytes(path) });
            },
        };
        let writer = if self.weak {
            WriterRef::Weak(self.writer.downgrade())
        } else {
            WriterRef::Strong(self.writer.clone_strong())
        };
        Ok(ZipFileWriter { path: p, buffer: Vec::new(), writer })
    }

    /// The metadata the write side can report: only the root and the
    /// directories registered so far; files are never queryable before
    /// commit.
    pub open spec fn spec_metadata_result(&self, path: Seq<u8>) -> Option<VfsMetadata> {
        if !dir_norm_ok(path) {
            None
        } else {
            let p = dir_norm_path(path);
            if p.len() == 0 || self.dirs_set().contains(p) {
                Some(VfsMetadata { file_type: VfsFileType::Directory, len: 0 })
            } else {
                None
            }
        }
    }

    /// Report a path's type and length, from the directory registry only.
    pub fn metadata(&self, path: &Vec<u8>) -> (r: Result<VfsMetadata, VfsError>)
        requires
            self.wf(),
        ensures
            match r {
                Ok(m) => self.spec_metadata_result(path@) == Some(m),
                Err(e) => self.spec_metadata_result(path@) is None && (match e {
                    VfsError::InvalidPath { path: p } => !dir_norm_ok(path@) && p@ == path@,
                    VfsError::FileNotFound { path: p } => dir_norm_ok(path@) && p@ == path@,
                    _ => false,
                }),
            },
    {
        let p = match normalize_path_dir(path) {
            Ok((p, _dir)) => p,
            Err(_) => {
                return Err(VfsError::InvalidPath { path: copy_bytes(path) });
            },
        };
        if p.len() == 0 || self.has_registered_dir(&p) {
            Ok(VfsMetadata { file_type: VfsFileType::Directory, len: 0 })
        } else {
            Err(VfsError::FileNotFound { path: copy_bytes(path) })
        }
    }

    /// Whether a path exists on the write side: the root, or a registered
    /// directory; a malformed path counts as absent.
    pub open spec fn spec_exists(&self, path: Seq<u8>) -> bool {
        dir_norm_ok(path) && (dir_norm_path(path).len() == 0 || self.dirs_set().contains(
            dir_norm_path(path),
        ))
    }

    /// Decide whether a path names the root or a registered directory.
    pub fn path_exists(&self, path: &Vec<u8>) -> (r: bool)
        requires
            self.wf(),
        ensures
            r == self.spec_exists(path@),
    {
        let p = match normalize_path_dir(path) {
            Ok((p, _dir)) => p,
            Err(_) => {
                return false;
            },
        };
        p.len() == 0 || self.has_registered_dir(&p)
    }

    /// A path exists on the write side exactly when a metadata lookup on
    /// it succeeds.
    pub proof fn lemma_exists_iff_metadata(&self, path: Seq<u8>)
        requires
            self.wf(),
        ensures
            self.spec_exists(path) == (self.spec_metadata_result(path) is Some),
    {
    }

    /// Scan the registry for a directory path.
    fn has_registered_dir(&self, p: &Vec<u8>) -> (r: bool)
        ensures
            r == self.dirs_set().contains(p@),
    {
        let mut i: usize = 0;
        while i < self.dirs.len()
            invariant
                i <= self.dirs@.len(),
                forall|a: int| 0 <= a < i ==> #[trigger] self.dirs@[a]@ != p@,
            decreases self.dirs@.len() - i,
        {
            if crate::bytes::bytes_eq(&self.dirs[i], p) {
                proof {
                    assert(names_seq(self.dirs@)[i as int] == p@);
                }
                return true;
            }
            i = i + 1;
        }
        proof {
            assert(!self.dirs_set().contains(p@)) by {
                if self.dirs_set().contains(p@) {
                    let a = choose|a: int|
                        0 <= a < names_seq(self.dirs@).len() && #[trigger] names_seq(
                            self.dirs@,
                        )[a] == p@;
                    assert(self.dirs@[a]@ == p@);
                }
            }
        }
        false
    }

    /// Write the finished archive, central directory included, to the
    /// sink.  After this the writer starts over empty.
    pub fn finish(&mut self) -> (r: Result<(), VfsError>)
        requires
            old(self).wf(),
        ensures
            final(self).wf(),
            r matches Err(ve) ==> !(ve matches VfsError::NotSupported) && !(
            ve matches VfsError::InvalidPath { .. }),
    {
        let bytes = match self.writer.finish_bytes() {
            Ok(b) => b,
            Err(e) => {
                return Err(VfsError::IoError(e));
            },
        };
        match self.sink.ws_write_all(&bytes) {
            Ok(()) => Ok(()),
            Err(e) => Err(VfsError::IoError(e)),
        }
    }

    /// Listing a directory is not supported on a write-only archive.
    pub fn read_dir(&self, path: &Vec<u8>) -> (r: Result<(), VfsError>)
        ensures
            r matches Err(VfsError::NotSupported),
    {
        let _ = path;
        Err(VfsError::NotSupported)
    }

    /// Opening a file for reading is not supported on a write-only
    /// archive.
    pub fn open_file(&self, path: &Vec<u8>) -> (r: Result<(), VfsError>)
        ensures
            r matches Err(VfsError::NotSupported),
    {
        let _ = path;
        Err(VfsError::NotSupported)
    }

    /// Appending to a committed file is not supported.
    pub fn append_file(&self, path: &Vec<u8>) -> (r: Result<(), VfsError>)
        ensures
            r matches Err(VfsError::NotSupported),
    {
        let _ = path;
        Err(VfsError::NotSupported)
    }

    /// Removing a file is not supported on a write-only archive.
    pub fn remove_file(&self, path: &Vec<u8>) -> (r: Result<(), VfsError>)
        ensures
            r matches Err(VfsError::NotSupported),
    {
        let _ = path;
        Err(VfsError::NotSupported)
    }

    /// Removing a directory is not supported on a write-only archive.
    pub fn remove_dir(&self, path: &Vec<u8>) -> (r: Result<(), VfsError>)
        ensures
            r matches Err(VfsError::NotSupported),
    {
        let _ = path;
        Err(VfsError::NotSupported)
    }

    /// Copying a file is not supported on a write-only archive.
    pub fn copy_file(&self, src: &Vec<u8>, dst: &Vec<u8>) -> (r: Result<(), VfsError>)
        ensures
            r matches Err(VfsError::NotSupported),
    {
        let _ = src;
        let _ = dst;
        Err(VfsError::NotSupported)
    }

    /// Moving a file is not supported on a write-only archive.
    pub fn move_file(&self, src: &Vec<u8>, dst: &Vec<u8>) -> (r: Result<(), VfsError>)
        ensures
            r matches Err(VfsError::NotSupported),
    {
        let _ = src;
        let _ = dst;
        Err(VfsError::NotSupported)
    }

    /// Moving a directory is not supported on a write-only archive.
    pub fn move_dir(&self, src: &Vec<u8>, dst: &Vec<u8>) -> (r: Result<(), VfsError>)
        ensures
            r matches Err(VfsError::NotSupported),
    {
        let _ = src;
        let _ = dst;
        Err(VfsError::NotSupported)
    }
}

} // verus!
