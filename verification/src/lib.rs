//! A virtual-filesystem view of ZIP archives.
//!
//! The read side indexes an archive once and then serves directory listings,
//! metadata lookups and streaming file reads; the write side builds a fresh
//! archive through a path-addressable interface.  The archive container
//! format and the compression codecs are supplied by outside libraries; the
//! indexing, path handling, seek arithmetic and extraction policy live here.

pub mod abs_seek_pos;
pub mod bytes;
pub mod entry;
pub mod error;
pub mod index_build;
pub mod path_index;
pub mod path_norm;
pub mod read_at_cursor;
pub mod read_at_len;
pub mod read_range;
pub mod tree;
pub mod vfs_meta;
pub mod zip_codec;
pub mod zip_read_only;
pub mod zip_stream;
pub mod zip_write_only;

pub use abs_seek_pos::AbsSeekPos;
pub use abs_seek_pos::SeekFrom;
pub use entry::CompressionMethod;
pub use entry::FileEntry;
pub use entry::RawEntry;
pub use error::Error;
pub use error::IoKind;
pub use error::VfsError;
pub use read_at_cursor::ReadAtCursor;
pub use read_at_len::ReadAt;
pub use read_at_len::ReadAtLen;
pub use read_at_len::SeekRead;
pub use read_at_len::SeeklessBlob;
pub use read_at_len::SeeklessSharedIO;
pub use read_range::ReadRange;
pub use vfs_meta::VfsFileType;
pub use vfs_meta::VfsMetadata;
pub use zip_read_only::ZipFileReader;
pub use zip_read_only::ZipReadOnly;
pub use zip_write_only::WriteSink;
pub use zip_write_only::ZipFileWriter;
pub use zip_write_only::ZipWriteOnly;
