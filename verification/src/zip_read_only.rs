//! The read-only archive filesystem: index once, then serve directory
//! listings, metadata lookups, existence checks and file reads, choosing
//! an extraction strategy per file from its size and compression method.

use vstd::prelude::*;
use core::ops::Range;
use crate::abs_seek_pos::{SeekFrom, is_invalid_input, seek_target};
use crate::bytes::copy_bytes;
use crate::entry::{CompressionMethod, FileEntry, RawEntry};
use crate::error::{Error, ErrorView, IoKind, VfsError, zip2vfs};
use crate::index_build::{
    build_index, files_bounded, items_view, keys_clean, opts_of_items, spec_build,
    spec_build_opt, lemma_build_ok_determined, lemma_relaxed_build_total,
};
use crate::path_index::{PathIndex, names_seq, names_unique};
use crate::path_norm::{
    dir_norm_is_dir, dir_norm_ok, dir_norm_path, file_norm_ok, normalize_file,
    normalize_path_dir, strip_lead,
};
use crate::read_at_cursor::ReadAtCursor;
use crate::read_at_len::{ReadAt, ReadAtLen, SeeklessBlob};
use crate::read_range::ReadRange;
use crate::tree::{linked, maps_wf};
use crate::vfs_meta::{VfsFileType, VfsMetadata};
use crate::zip_codec::{decode_entry_buffer, zip_decode_of, zip_open_of};
use crate::zip_stream::ZipStreamReader;

verus! {

/// Above this uncompressed size, stored entries are streamed from the
/// source instead of being copied into memory first.
pub const LIMIT_PREFER_IN_MEMORY: u64 = 1024;

/// At or above this size, an entry with no streaming path is refused
/// rather than buffered.
pub const LIMIT_ALLOW_IN_MEMORY: u64 = 1024 * 1024 * 1024;

/// The extraction strategy chosen for one file, in priority order.
#[derive(Clone, Copy, PartialEq, Eq, Structural, Debug)]
pub enum ExtractStrategy {
    /// Stored and small: copy the exact byte range into memory.
    MemoryDirect,
    /// Stored and large: stream the exact byte range, zero-copy.
    RangedStream,
    /// Deflate-compressed and large: stream through a decompressor.
    StreamDeflate,
    /// Bzip2-compressed and large: stream through a decompressor.
    StreamBzip2,
    /// Too large to buffer, with no streaming path: refuse.
    TooLarge,
    /// Buffer the header and compressed bytes, re-parse the local header
    /// and decompress fully into memory.
    Fallback,
}

/// The strategy the size thresholds and the compression method select.
pub open spec fn spec_strategy(e: FileEntry) -> ExtractStrategy {
    if e.method is Stored && e.uncompressed <= LIMIT_PREFER_IN_MEMORY {
        ExtractStrategy::MemoryDirect
    } else if e.method is Stored {
        ExtractStrategy::RangedStream
    } else if e.method is Deflated && e.uncompressed > LIMIT_PREFER_IN_MEMORY {
        ExtractStrategy::StreamDeflate
    } else if e.method is Bzip2 && e.uncompressed > LIMIT_PREFER_IN_MEMORY {
        ExtractStrategy::StreamBzip2
    } else if e.compressed >= LIMIT_ALLOW_IN_MEMORY || e.uncompressed >= LIMIT_ALLOW_IN_MEMORY {
        ExtractStrategy::TooLarge
    } else {
        ExtractStrategy::Fallback
    }
}

/// Select the extraction strategy for one file entry.
pub fn choose_strategy(e: &FileEntry) -> (s: ExtractStrategy)
    ensures
        s == spec_strategy(*e),
{
    let stored = matches!(e.method, CompressionMethod::Stored);
    if stored && e.uncompressed <= LIMIT_PREFER_IN_MEMORY {
        ExtractStrategy::MemoryDirect
    } else if stored {
        ExtractStrategy::RangedStream
    } else if matches!(e.method, CompressionMethod::Deflated) && e.uncompressed
        > LIMIT_PREFER_IN_MEMORY {
        ExtractStrategy::StreamDeflate
    } else if matches!(e.method, CompressionMethod::Bzip2) && e.uncompressed
        > LIMIT_PREFER_IN_MEMORY {
        ExtractStrategy::StreamBzip2
    } else if e.compressed >= LIMIT_ALLOW_IN_MEMORY || e.uncompressed >= LIMIT_ALLOW_IN_MEMORY {
        ExtractStrategy::TooLarge
    } else {
        ExtractStrategy::Fallback
    }
}

/// A readable, possibly seekable handle over one file's decompressed
/// content, whatever extraction strategy produced it.
pub enum ZipFileReader<IO: ReadAt> {
    /// Decompressed (or directly copied) bytes held in memory.
    Memory(ReadAtCursor<SeeklessBlob>),
    /// A zero-copy view of a stored entry's bytes.
    Ranged(ReadRange<IO>),
    /// A streaming decompressor; readable but not seekable.
    Stream(ZipStreamReader<IO>),
}

impl<IO: ReadAt> ZipFileReader<IO> {
    /// Whether the handle's internal state is consistent.
    pub open spec fn wf(&self) -> bool {
        match self {
            ZipFileReader::Memory(c) => c.wf(),
            ZipFileReader::Ranged(rr) => rr.wf(),
            ZipFileReader::Stream(s) => s.wf(),
        }
    }

    /// Whether reads through the handle are pinned down by `content()`.
    pub open spec fn transparent(&self) -> bool {
        match self {
            ZipFileReader::Memory(c) => c.transparent(),
            ZipFileReader::Ranged(rr) => rr.transparent(),
            ZipFileReader::Stream(_) => false,
        }
    }

    /// The bytes the handle serves, as far as this library can know them.
    pub open spec fn content(&self) -> Seq<u8> {
        match self {
            ZipFileReader::Memory(c) => c.content(),
            ZipFileReader::Ranged(rr) => rr.range_content(),
            ZipFileReader::Stream(_) => Seq::empty(),
        }
    }

    /// The handle's current position, where one is tracked.
    pub open spec fn pos(&self) -> u64 {
        match self {
            ZipFileReader::Memory(c) => c.pos(),
            ZipFileReader::Ranged(rr) => rr.pos(),
            ZipFileReader::Stream(_) => 0,
        }
    }

    /// The bound seeks are checked against.
    pub open spec fn limit(&self) -> u64 {
        match self {
            ZipFileReader::Memory(c) => c.limit(),
            ZipFileReader::Ranged(rr) => rr.limit(),
            ZipFileReader::Stream(_) => 0,
        }
    }

    /// Whether the handle supports seeking: a compressed stream does not.
    pub open spec fn can_seek(&self) -> bool {
        !(self matches ZipFileReader::Stream(_))
    }

    /// Read up to `len` bytes, advancing the handle.  Through a
    /// transparent handle the bytes are exactly `content()` at the old
    /// position, short only at the end, and a read fails only once the
    /// whole content has been passed.
    pub fn read(&mut self, len: usize) -> (r: Result<Vec<u8>, Error>)
        requires
            old(self).wf(),
        ensures
            final(self).wf(),
            final(self).transparent() == old(self).transparent(),
            final(self).can_seek() == old(self).can_seek(),
            final(self).content() == old(self).content(),
            final(self).limit() == old(self).limit(),
            r matches Ok(v) ==> v@.len() <= len,
            old(self).transparent() ==> match r {
                Ok(v) => {
                    &&& v@.len() == (if old(self).pos() + len <= old(self).content().len() {
                        len as int
                    } else {
                        old(self).content().len() - old(self).pos()
                    })
                    &&& v@ == old(self).content().subrange(
                        old(self).pos() as int,
                        old(self).pos() + v@.len(),
                    )
                    &&& final(self).pos() == old(self).pos() + v@.len()
                },
                Err(_) => false,
            },
    {
        match self {
            ZipFileReader::Memory(c) => {
                proof {
                    if c.transparent() {
                        c.lemma_transparent_len();
                    }
                }
                c.read(len)
            },
            ZipFileReader::Ranged(rr) => {
                proof {
                    if rr.transparent() {
                        rr.lemma_transparent_len();
                    }
                }
                rr.read(len)
            },
            ZipFileReader::Stream(s) => s.read(len),
        }
    }

    /// Resolve a seek request: a seekable handle checks the target
    /// against its bound, and a compressed stream refuses outright.
    pub fn seek(&mut self, pos: SeekFrom) -> (r: Result<u64, Error>)
        requires
            old(self).wf(),
        ensures
            final(self).wf(),
            final(self).transparent() == old(self).transparent(),
            final(self).can_seek() == old(self).can_seek(),
            final(self).content() == old(self).content(),
            final(self).limit() == old(self).limit(),
            !old(self).can_seek() ==> r is Err,
            old(self).can_seek() ==> match r {
                Ok(n) => {
                    &&& 0 <= seek_target(old(self).pos(), pos, old(self).limit()) <= old(
                        self,
                    ).limit()
                    &&& n == seek_target(old(self).pos(), pos, old(self).limit())
                    &&& final(self).pos() == n
                },
                Err(e) => {
                    &&& !(0 <= seek_target(old(self).pos(), pos, old(self).limit()) <= old(
                        self,
                    ).limit())
                    &&& is_invalid_input(e)
                    &&& final(self).pos() == old(self).pos()
                },
            },
    {
        match self {
            ZipFileReader::Memory(c) => c.seek(pos),
            ZipFileReader::Ranged(rr) => rr.seek(pos),
            ZipFileReader::Stream(s) => s.seek(pos),
        }
    }
}

/// A read-only archive filesystem.
pub struct ZipReadOnly<IO: ReadAt> {
    io: IO,
    len: u64,
    index: PathIndex,
}

impl<IO: ReadAt> ZipReadOnly<IO> {
    /// The map from normalized path to file entry.
    pub closed spec fn files(&self) -> Map<Seq<u8>, FileEntry> {
        self.index.files_map()
    }

    /// The map from normalized directory path to its child names.
    pub closed spec fn dirs(&self) -> Map<Seq<u8>, Set<Seq<u8>>> {
        self.index.dirs_map()
    }

    /// The child names under a directory, in insertion order.
    pub closed spec fn children(&self, p: Seq<u8>) -> Seq<Seq<u8>> {
        self.index.children_seq(p)
    }

    /// The source's bytes, as far as this library can know them.
    pub closed spec fn src_content(&self) -> Seq<u8> {
        self.io.content()
    }

    /// Whether the source's content is pinned down.
    pub closed spec fn source_faithful(&self) -> bool {
        self.io.faithful()
    }

    /// The source's total length in bytes.
    pub closed spec fn src_len(&self) -> u64 {
        self.len
    }

    /// The filesystem's invariant: the index is well formed, every
    /// indexed file lies within the source, and for a faithful source the
    /// recorded length is the content's.
    pub closed spec fn wf(&self) -> bool {
        &&& self.index.rep_ok()
        &&& maps_wf(self.files(), self.dirs())
        &&& files_bounded(self.files(), self.len)
        &&& (self.io.faithful() ==> self.len == self.io.content().len())
    }

    /// Whether an archive with the given bytes opens at all under the
    /// given policy: the bytes parse, and indexing their entries does
    /// not abort.  For a faithful store this decides the constructors'
    /// success.
    pub open spec fn spec_archive_opens(bytes: Seq<u8>, relaxed: bool, src_len: u64) -> bool {
        match zip_open_of(bytes) {
            Some(opts) => spec_build_opt(
                Map::empty(),
                Map::empty().insert(Seq::empty(), Set::empty()),
                opts,
                0,
                relaxed,
                src_len,
            ) is Some,
            None => false,
        }
    }

    /// Whether this filesystem's maps are the ones indexing the source's
    /// parsed entries yields: for a faithful source, construction
    /// guarantees it, and any two such filesystems agree.
    pub open spec fn indexed_from_content(&self, relaxed: bool) -> bool {
        &&& zip_open_of(self.src_content()) is Some
        &&& spec_build_opt(
            Map::empty(),
            Map::empty().insert(Seq::empty(), Set::empty()),
            zip_open_of(self.src_content()).unwrap(),
            0,
            relaxed,
            self.src_len(),
        ) == Some((self.files(), self.dirs()))
    }

    /// Build the filesystem from an already-enumerated entry list over an
    /// already-acquired source.  A relaxed build always succeeds: every
    /// offending entry is skipped.  Either way, no key of the built maps
    /// holds a backslash or an empty segment, and none is absolute.
    pub fn from_entry_list(io: IO, len: u64, entries: Vec<Result<RawEntry, Error>>, relaxed: bool)
        -> (r: Result<ZipReadOnly<IO>, Error>)
        requires
            io.faithful() ==> len == io.content().len(),
        ensures
            relaxed ==> r is Ok,
            match r {
                Ok(z) => {
                    &&& z.wf()
                    &&& z.src_content() == io.content()
                    &&& z.source_faithful() == io.faithful()
                    &&& z.src_len() == len
                    &&& keys_clean(z.files(), z.dirs())
                    &&& spec_build(items_view(entries@), relaxed, len) == Ok::<_, ErrorView>(
                        (z.files(), z.dirs()),
                    )
                },
                Err(e) => spec_build(items_view(entries@), relaxed, len) == Err::<
                    (Map<Seq<u8>, FileEntry>, Map<Seq<u8>, Set<Seq<u8>>>),
                    ErrorView,
                >(e@),
            },
    {
        proof {
            if relaxed {
                lemma_relaxed_build_total(
                    Map::empty(),
                    Map::empty().insert(Seq::empty(), Set::empty()),
                    items_view(entries@),
                    0,
                    len,
                );
            }
        }
        let index = build_index(&entries, relaxed, len)?;
        Ok(ZipReadOnly { io, len, index })
    }

    /// Open a read-only filesystem over the given backing store, failing
    /// on any archive error, including unsupported entry paths.  Over a
    /// faithful store the result's maps are a function of the store's
    /// bytes alone.
    pub fn new_strict<R: ReadAtLen<ReadAt = IO>>(ral: R) -> (r: Result<ZipReadOnly<IO>, Error>)
        ensures
            ral.source_faithful() ==> (r is Ok) == Self::spec_archive_opens(
                ral.source_bytes(),
                false,
                ral.source_bytes().len() as u64,
            ),
            r matches Ok(z) ==> {
                &&& z.wf()
                &&& z.source_faithful() == ral.source_faithful()
                &&& (z.source_faithful() ==> z.src_content() == ral.source_bytes()
                    && z.src_len() == ral.source_bytes().len() && z.indexed_from_content(false))
            },
    {
        Self::new_impl(ral, false)
    }

    /// Open a read-only filesystem over the given backing store, skipping
    /// entries the archive library or this one refuses.  Over a faithful
    /// store the result's maps are a function of the store's bytes alone.
    pub fn new_relaxed<R: ReadAtLen<ReadAt = IO>>(ral: R) -> (r: Result<ZipReadOnly<IO>, Error>)
        ensures
            ral.source_faithful() ==> (r is Ok) == Self::spec_archive_opens(
                ral.source_bytes(),
                true,
                ral.source_bytes().len() as u64,
            ),
            r matches Ok(z) ==> {
                &&& z.wf()
                &&& z.source_faithful() == ral.source_faithful()
                &&& (z.source_faithful() ==> z.src_content() == ral.source_bytes()
                    && z.src_len() == ral.source_bytes().len() && z.indexed_from_content(true))
            },
    {
        Self::new_impl(ral, true)
    }

    /// Acquire the source, enumerate the archive's entries once, and
    /// build the index.
    fn new_impl<R: ReadAtLen<ReadAt = IO>>(ral: R, relaxed: bool) -> (r: Result<
        ZipReadOnly<IO>,
        Error,
    >)
        ensures
            ral.source_faithful() ==> (r is Ok) == Self::spec_archive_opens(
                ral.source_bytes(),
                relaxed,
                ral.source_bytes().len() as u64,
            ),
            r matches Ok(z) ==> {
                &&& z.wf()
                &&& z.source_faithful() == ral.source_faithful()
                &&& (z.source_faithful() ==> z.src_content() == ral.source_bytes()
                    && z.src_len() == ral.source_bytes().len() && z.indexed_from_content(
                    relaxed,
                ))
            },
    {
        let ghost src_faithful = ral.source_faithful();
        let ghost src_bytes = ral.source_bytes();
        let (io, len) = ral.into_read_at_len()?;
        let entries = io.entries()?;
        let ghost itemsv = items_view(entries@);
        let z = match Self::from_entry_list(io, len, entries, relaxed) {
            Ok(z) => z,
            Err(e) => {
                proof {
                    if src_faithful {
                        lemma_build_ok_determined(
                            Map::empty(),
                            Map::empty().insert(Seq::empty(), Set::empty()),
                            itemsv,
                            0,
                            relaxed,
                            len,
                        );
                        assert(opts_of_items(itemsv) =~= zip_open_of(src_bytes).unwrap());
                    }
                }
                return Err(e);
            },
        };
        proof {
            if src_faithful {
                lemma_build_ok_determined(
                    Map::empty(),
                    Map::empty().insert(Seq::empty(), Set::empty()),
                    itemsv,
                    0,
                    relaxed,
                    z.src_len(),
                );
                assert(opts_of_items(itemsv) =~= zip_open_of(z.src_content()).unwrap());
            }
        }
        Ok(z)
    }

    /// The entry's raw data bytes within the source: the compressed
    /// payload, which for a stored entry is the content itself.
    pub open spec fn entry_data(&self, e: FileEntry) -> Seq<u8> {
        self.src_content().subrange(
            e.header_offset + e.header_size,
            e.header_offset + e.header_size + e.compressed,
        )
    }

    /// What a successful directory listing reports and when each error
    /// comes: a malformed path is invalid, a file is not a directory, and
    /// anything else is absent.
    pub open spec fn read_dir_post(&self, path: Seq<u8>, r: Result<Vec<Vec<u8>>, VfsError>)
        -> bool {
        if !dir_norm_ok(path) {
            match r {
                Err(VfsError::InvalidPath { path: p }) => p@ == path,
                _ => false,
            }
        } else {
            let norm = dir_norm_path(path);
            if self.dirs().contains_key(norm) {
                match r {
                    Ok(listing) => {
                        &&& names_seq(listing@) == self.children(norm)
                        &&& names_seq(listing@).to_set() == self.dirs()[norm]
                        &&& names_unique(listing@)
                    },
                    _ => false,
                }
            } else if self.files().contains_key(norm) {
                r matches Err(VfsError::Other { .. })
            } else {
                match r {
                    Err(VfsError::FileNotFound { path: p }) => p@ == path,
                    _ => false,
                }
            }
        }
    }

    /// List the immediate children of a directory.
    pub fn read_dir(&self, path: &Vec<u8>) -> (r: Result<Vec<Vec<u8>>, VfsError>)
        requires
            self.wf(),
        ensures
            self.read_dir_post(path@, r),
    {
        let p = match normalize_path_dir(path) {
            Ok((p, _dir)) => p,
            Err(_) => {
                return Err(VfsError::InvalidPath { path: copy_bytes(path) });
            },
        };
        match self.index.children_of(&p) {
            Some(listing) => {
                proof {
                    self.index.lemma_dir_value(p@);
                }
                Ok(listing)
            },
            None => {
                if self.index.has_file(&p) {
                    Err(VfsError::Other {
                        message: "the path is a file, not a directory".to_owned(),
                    })
                } else {
                    Err(VfsError::FileNotFound { path: copy_bytes(path) })
                }
            },
        }
    }

    /// The metadata a lookup reports, when one is owed: a file's entry
    /// when the path is not in directory context, else a directory.
    pub open spec fn spec_metadata_result(&self, path: Seq<u8>) -> Option<VfsMetadata> {
        if !dir_norm_ok(path) {
            None
        } else {
            let p = dir_norm_path(path);
            if !dir_norm_is_dir(path) && self.files().contains_key(p) {
                Some(
                    VfsMetadata {
                        file_type: VfsFileType::File,
                        len: self.files()[p].uncompressed,
                    },
                )
            } else if self.dirs().contains_key(p) {
                Some(VfsMetadata { file_type: VfsFileType::Directory, len: 0 })
            } else {
                None
            }
        }
    }

    /// Report a path's type and logical length.
    pub fn metadata(&self, path: &Vec<u8>) -> (r: Result<VfsMetadata, VfsError>)
        requires
            self.wf(),
        ensures
            match r {
                Ok(m) => self.spec_metadata_result(path@) == Some(m),
                Err(e) => self.spec_metadata_result(path@) is None && (match e {
                    VfsError::InvalidPath { path: p } => !dir_norm_ok(path@) && p@ == path@,
                    VfsError::FileNotFound { path: p } => dir_norm_ok(path@) && p@ == path@,
                    _ => false,
                }),
            },
    {
        let (p, dir) = match normalize_path_dir(path) {
            Ok(pd) => pd,
            Err(_) => {
                return Err(VfsError::InvalidPath { path: copy_bytes(path) });
            },
        };
        if !dir {
            match self.index.file_entry(&p) {
                Some(e) => {
                    return Ok(VfsMetadata { file_type: VfsFileType::File, len: e.uncompressed });
                },
                None => {},
            }
        }
        if self.index.has_dir(&p) {
            Ok(VfsMetadata { file_type: VfsFileType::Directory, len: 0 })
        } else {
            Err(VfsError::FileNotFound { path: copy_bytes(path) })
        }
    }

    /// Whether a path exists: any normalization failure counts as absence
    /// and is never reported as an error.
    pub open spec fn spec_exists(&self, path: Seq<u8>) -> bool {
        dir_norm_ok(path) && {
            let p = dir_norm_path(path);
            (!dir_norm_is_dir(path) && self.files().contains_key(p)) || self.dirs().contains_key(
                p,
            )
        }
    }

    /// Decide whether a path names a file or directory of the archive.
    pub fn path_exists(&self, path: &Vec<u8>) -> (r: bool)
        requires
            self.wf(),
        ensures
            r == self.spec_exists(path@),
    {
        let (p, dir) = match normalize_path_dir(path) {
            Ok(pd) => pd,
            Err(_) => {
                return false;
            },
        };
        (!dir && self.index.has_file(&p)) || self.index.has_dir(&p)
    }

    /// A path exists exactly when a metadata lookup on it succeeds.
    pub proof fn lemma_exists_iff_metadata(&self, path: Seq<u8>)
        requires
            self.wf(),
        ensures
            self.spec_exists(path) == (self.spec_metadata_result(path) is Some),
    {
    }

    /// Every directory implied by any file or directory path is linked to
    /// the root through its whole ancestor chain, each level a directory
    /// that lists the next as a child: nothing the index holds is
    /// orphaned from `read_dir`.
    pub proof fn lemma_no_orphans(&self)
        requires
            self.wf(),
        ensures
            self.dirs().contains_key(Seq::empty()),
            forall|p: Seq<u8>|
                #[trigger] self.dirs().contains_key(p) ==> linked(self.dirs(), p),
            forall|p: Seq<u8>|
                #[trigger] self.files().contains_key(p) ==> linked(self.dirs(), p),
    {
    }

    /// What a successful open reports for a stored-and-small entry.
    pub open spec fn post_memory_direct(&self, e: FileEntry, r: Result<
        ZipFileReader<IO>,
        VfsError,
    >) -> bool {
        match r {
            Ok(h) => {
                &&& h.wf()
                &&& h.can_seek()
                &&& h.pos() == 0
                &&& h.transparent()
                &&& h.content().len() == e.uncompressed
                &&& (self.source_faithful() ==> h.content() == self.entry_data(e))
            },
            Err(ve) => !self.source_faithful() && (ve matches VfsError::IoError(_)),
        }
    }

    /// What a successful open reports for a stored-and-large entry.
    pub open spec fn post_ranged(&self, e: FileEntry, r: Result<ZipFileReader<IO>, VfsError>)
        -> bool {
        match r {
            Ok(h) => {
                &&& h.wf()
                &&& h.can_seek()
                &&& h.pos() == 0
                &&& h.limit() == e.compressed
                &&& (self.source_faithful() ==> h.transparent() && h.content()
                    == self.entry_data(e))
            },
            Err(_) => false,
        }
    }

    /// What an open through the in-memory fallback reports: the handle
    /// holds exactly the entry's declared uncompressed length — for a
    /// faithful source, the decode of exactly the entry's header and
    /// compressed bytes — or the decode failed.
    pub open spec fn post_fallback(&self, e: FileEntry, r: Result<ZipFileReader<IO>, VfsError>)
        -> bool {
        match r {
            Ok(h) => {
                &&& h.wf()
                &&& h.can_seek()
                &&& h.pos() == 0
                &&& h.transparent()
                &&& h.content().len() == e.uncompressed
                &&& (self.source_faithful() ==> h.content() == zip_decode_of(
                    self.src_content().subrange(
                        e.header_offset as int,
                        e.header_offset + e.header_size + e.compressed,
                    ),
                    e.uncompressed as nat,
                ))
            },
            Err(ve) => match ve {
                VfsError::InvalidPath { .. } => false,
                VfsError::NotSupported => false,
                _ => true,
            },
        }
    }

    /// The whole contract of `open_file`, by path resolution and by the
    /// strategy the entry selects.
    pub open spec fn open_file_post(&self, path: Seq<u8>, r: Result<
        ZipFileReader<IO>,
        VfsError,
    >) -> bool {
        if !file_norm_ok(path) {
            match r {
                Err(VfsError::InvalidPath { path: p }) => p@ == path,
                _ => false,
            }
        } else {
            let norm = strip_lead(path);
            if self.files().contains_key(norm) {
                let e = self.files()[norm];
                if e.method is Stored && e.compressed != e.uncompressed {
                    match r {
                        Err(VfsError::IoError(Error::Io { kind, .. })) => kind is InvalidData,
                        _ => false,
                    }
                } else {
                    match spec_strategy(e) {
                        ExtractStrategy::MemoryDirect => self.post_memory_direct(e, r),
                        ExtractStrategy::RangedStream => self.post_ranged(e, r),
                        ExtractStrategy::StreamDeflate => match r {
                            Ok(h) => h.wf() && !h.can_seek(),
                            _ => false,
                        },
                        ExtractStrategy::StreamBzip2 => match r {
                            Ok(h) => h.wf() && !h.can_seek(),
                            _ => false,
                        },
                        ExtractStrategy::TooLarge => r matches Err(VfsError::Other { .. }),
                        ExtractStrategy::Fallback => self.post_fallback(e, r),
                    }
                }
            } else if self.dirs().contains_key(norm) {
                r matches Err(VfsError::Other { .. })
            } else {
                match r {
                    Err(VfsError::FileNotFound { path: p }) => p@ == path,
                    _ => false,
                }
            }
        }
    }

    /// Open a file for reading, choosing the extraction strategy from the
    /// entry's sizes and compression method.
    pub fn open_file(&self, path: &Vec<u8>) -> (r: Result<ZipFileReader<IO>, VfsError>)
        requires
            self.wf(),
        ensures
            self.open_file_post(path@, r),
    {
        let p = match normalize_file(path) {
            Ok(p) => p,
            Err(_) => {
                return Err(VfsError::InvalidPath { path: copy_bytes(path) });
            },
        };
        let e = match self.index.file_entry(&p) {
            Some(e) => e,
            None => {
                if self.index.has_dir(&p) {
                    return Err(VfsError::Other {
                        message: "the path is a directory, not a file".to_owned(),
                    });
                }
                return Err(VfsError::FileNotFound { path: copy_bytes(path) });
            },
        };
        if matches!(e.method, CompressionMethod::Stored) && e.compressed != e.uncompressed {
            return Err(VfsError::IoError(Error::Io {
                kind: IoKind::InvalidData,
                message: "a stored entry's compressed and uncompressed sizes differ".to_owned(),
            }));
        }
        proof {
            assert(self.files().contains_key(p@));
            let fe = self.files()[p@];
            assert(fe.header_offset + fe.header_size + fe.compressed <= self.len);
        }
        let data_start = e.header_offset + e.header_size;
        match choose_strategy(&e) {
            ExtractStrategy::MemoryDirect => {
                let unc = e.uncompressed as usize;
                match self.io.read_exact_at(data_start, unc) {
                    Ok(bytes) => {
                        let n = bytes.len() as u64;
                        let blob = SeeklessBlob::new(bytes);
                        Ok(ZipFileReader::Memory(ReadAtCursor::new(blob, n)))
                    },
                    Err(err) => Err(VfsError::IoError(err)),
                }
            },
            ExtractStrategy::RangedStream => {
                let rr = ReadRange::new(
                    self.io.duplicate(),
                    Range { start: data_start, end: data_start + e.compressed },
                );
                Ok(ZipFileReader::Ranged(rr))
            },
            ExtractStrategy::StreamDeflate => {
                let rr = ReadRange::new(
                    self.io.duplicate(),
                    Range { start: data_start, end: data_start + e.compressed },
                );
                Ok(ZipFileReader::Stream(ZipStreamReader::new_deflate(rr)))
            },
            ExtractStrategy::StreamBzip2 => {
                let rr = ReadRange::new(
                    self.io.duplicate(),
                    Range { start: data_start, end: data_start + e.compressed },
                );
                Ok(ZipFileReader::Stream(ZipStreamReader::new_bzip2(rr)))
            },
            ExtractStrategy::TooLarge => {
                if e.compressed >= LIMIT_ALLOW_IN_MEMORY {
                    Err(VfsError::Other {
                        message:
                            "the compressed entry exceeds the in-memory limit and this method cannot be streamed".to_owned(),
                    })
                } else {
                    Err(VfsError::Other {
                        message:
                            "the uncompressed entry exceeds the in-memory limit and this method cannot be streamed".to_owned(),
                    })
                }
            },
            ExtractStrategy::Fallback => {
                let hacn = e.header_size + e.compressed;
                if hacn > usize::MAX as u64 {
                    return Err(VfsError::IoError(Error::Io {
                        kind: IoKind::InvalidData,
                        message: "the entry is too large to buffer in memory".to_owned(),
                    }));
                }
                let hac = match self.io.read_exact_at(e.header_offset, hacn as usize) {
                    Ok(v) => v,
                    Err(err) => {
                        return Err(VfsError::IoError(err));
                    },
                };
                let unc = e.uncompressed as usize;
                match decode_entry_buffer(hac, unc) {
                    Ok(v) => {
                        let n = v.len() as u64;
                        let blob = SeeklessBlob::new(v);
                        Ok(ZipFileReader::Memory(ReadAtCursor::new(blob, n)))
                    },
                    Err(err) => Err(zip2vfs(path, err)),
                }
            },
        }
    }

    /// Creating a directory is not supported on a read-only archive.
    pub fn create_dir(&self, path: &Vec<u8>) -> (r: Result<(), VfsError>)
        ensures
            r matches Err(VfsError::NotSupported),
    {
        let _ = path;
        Err(VfsError::NotSupported)
    }

    /// Creating a file is not supported on a read-only archive.
    pub fn create_file(&self, path: &Vec<u8>) -> (r: Result<(), VfsError>)
        ensures
            r matches Err(VfsError::NotSupported),
    {
        let _ = path;
        Err(VfsError::NotSupported)
    }

    /// Appending to a file is not supported on a read-only archive.
    pub fn append_file(&self, path: &Vec<u8>) -> (r: Result<(), VfsError>)
        ensures
            r matches Err(VfsError::NotSupported),
    {
        let _ = path;
        Err(VfsError::NotSupported)
    }

    /// Removing a file is not supported on a read-only archive.
    pub fn remove_file(&self, path: &Vec<u8>) -> (r: Result<(), VfsError>)
        ensures
            r matches Err(VfsError::NotSupported),
    {
        let _ = path;
        Err(VfsError::NotSupported)
    }

    /// Removing a directory is not supported on a read-only archive.
    pub fn remove_dir(&self, path: &Vec<u8>) -> (r: Result<(), VfsError>)
        ensures
            r matches Err(VfsError::NotSupported),
    {
        let _ = path;
        Err(VfsError::NotSupported)
    }

    /// Copying a file is not supported on a read-only archive.
    pub fn copy_file(&self, src: &Vec<u8>, dst: &Vec<u8>) -> (r: Result<(), VfsError>)
        ensures
            r matches Err(VfsError::NotSupported),
    {
        let _ = src;
        let _ = dst;
        Err(VfsError::NotSupported)
    }

    /// Moving a file is not supported on a read-only archive.
    pub fn move_file(&self, src: &Vec<u8>, dst: &Vec<u8>) -> (r: Result<(), VfsError>)
        ensures
            r matches Err(VfsError::NotSupported),
    {
        let _ = src;
        let _ = dst;
        Err(VfsError::NotSupported)
    }

    /// Moving a directory is not supported on a read-only archive.
    pub fn move_dir(&self, src: &Vec<u8>, dst: &Vec<u8>) -> (r: Result<(), VfsError>)
        ensures
            r matches Err(VfsError::NotSupported),
    {
        let _ = src;
        let _ = dst;
        Err(VfsError::NotSupported)
    }
}

/// The round trip a faithful source owes for stored entries: opening a
/// consistent stored file always succeeds, and whichever of the two
/// stored strategies was selected, the handle serves exactly the entry's
/// bytes as they lie in the archive, starting at position zero.  Reading
/// them back is then pinned down by the handle's own read contract.
/// (For compressed entries the decompressor's output is not modeled, so
/// the corresponding claim is checked by tests instead.)
pub proof fn lemma_stored_round_trip<IO: ReadAt>(
    z: &ZipReadOnly<IO>,
    path: Seq<u8>,
    r: Result<ZipFileReader<IO>, VfsError>,
)
    requires
        z.wf(),
        z.source_faithful(),
        z.open_file_post(path, r),
        file_norm_ok(path),
        z.files().contains_key(strip_lead(path)),
        z.files()[strip_lead(path)].method is Stored,
        z.files()[strip_lead(path)].compressed == z.files()[strip_lead(path)].uncompressed,
    ensures
        match r {
            Ok(h) => {
                &&& h.transparent()
                &&& h.pos() == 0
                &&& h.content() == z.entry_data(z.files()[strip_lead(path)])
            },
            Err(_) => false,
        },
{
    let e = z.files()[strip_lead(path)];
    assert(spec_strategy(e) is MemoryDirect || spec_strategy(e) is RangedStream);
}

/// Indexing the same archive twice, or rebuilding from a source with the
/// same bytes, yields identical file and directory maps: a successful
/// build over a faithful source is a function of the archive bytes, the
/// policy flag and the source length alone.  Whether construction
/// succeeds at all is likewise a function of the bytes — the
/// constructors tie their success to `spec_archive_opens` — so two
/// faithful stores with equal bytes agree on failure too.
pub proof fn lemma_index_deterministic<A: ReadAt, B: ReadAt>(
    z1: &ZipReadOnly<A>,
    z2: &ZipReadOnly<B>,
    relaxed: bool,
)
    requires
        z1.indexed_from_content(relaxed),
        z2.indexed_from_content(relaxed),
        z1.src_content() == z2.src_content(),
        z1.src_len() == z2.src_len(),
    ensures
        z1.files() == z2.files(),
        z1.dirs() == z2.dirs(),
{
}

} // verus!
