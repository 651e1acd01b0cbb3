//! The metadata record the path-addressable interface reports.

use vstd::prelude::*;

verus! {

/// Whether a path names a file or a directory.
#[derive(Clone, Copy, PartialEq, Eq, Structural, Debug)]
pub enum VfsFileType {
    /// A plain file.
    File,
    /// A directory.
    Directory,
}

/// What a metadata lookup reports: the path's type and its logical
/// length, which is the uncompressed size for a file and zero for a
/// directory.
#[derive(Clone, Copy, PartialEq, Eq, Structural, Debug)]
pub struct VfsMetadata {
    pub file_type: VfsFileType,
    pub len: u64,
}

} // verus!
