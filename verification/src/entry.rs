//! Archive entry records: what the container codec reports for each stored
//! file or directory, and what the index keeps per file.

use vstd::prelude::*;
use crate::bytes::copy_range;
use crate::path_norm::{BACKSLASH, SLASH, contains_byte};

verus! {

/// How an entry's bytes are stored in the archive.
#[derive(Clone, Copy, PartialEq, Eq, Structural, Debug)]
pub enum CompressionMethod {
    /// Bytes stored as they are; compressed and uncompressed sizes agree.
    Stored,
    /// The deflate method.
    Deflated,
    /// The bzip2 method.
    Bzip2,
    /// Any other method, carried by its container-format code.
    Other(u16),
}

/// One entry as enumerated from the archive's central directory.
pub struct RawEntry {
    /// The stored path, archive-relative, `/`-separated.
    pub name: Vec<u8>,
    /// Whether the entry is a plain file.
    pub is_file: bool,
    /// Whether the entry is a directory.
    pub is_dir: bool,
    /// Absolute offset of the entry's local header.
    pub header_offset: u64,
    /// Absolute offset of the entry's compressed data.
    pub data_start: u64,
    /// Length of the compressed data in bytes.
    pub compressed: u64,
    /// Length of the data once decompressed.
    pub uncompressed: u64,
    /// The compression method.
    pub method: CompressionMethod,
}

/// The ghost image of a `RawEntry`, with the name as a byte sequence.
pub struct EntryView {
    pub name: Seq<u8>,
    pub is_file: bool,
    pub is_dir: bool,
    pub header_offset: u64,
    pub data_start: u64,
    pub compressed: u64,
    pub uncompressed: u64,
    pub method: CompressionMethod,
}

impl View for RawEntry {
    type V = EntryView;

    open spec fn view(&self) -> EntryView {
        EntryView {
            name: self.name@,
            is_file: self.is_file,
            is_dir: self.is_dir,
            header_offset: self.header_offset,
            data_start: self.data_start,
            compressed: self.compressed,
            uncompressed: self.uncompressed,
            method: self.method,
        }
    }
}

/// What the index keeps for one file of the archive.
#[derive(Clone, Copy, PartialEq, Eq, Structural, Debug)]
pub struct FileEntry {
    /// Absolute offset of the entry's local header.
    pub header_offset: u64,
    /// Bytes between the local header start and the compressed data start.
    pub header_size: u64,
    /// Length of the compressed data in bytes.
    pub compressed: u64,
    /// Length of the data once decompressed.
    pub uncompressed: u64,
    /// The compression method.
    pub method: CompressionMethod,
}

/// Whether an entry's offsets are consistent with a source of `src_len`
/// bytes: the data starts at or after its header, and the compressed data
/// ends within the source.
pub open spec fn entry_bounds_ok(e: EntryView, src_len: u64) -> bool {
    &&& e.header_offset <= e.data_start
    &&& e.data_start + e.compressed <= src_len
}

/// The index record an in-bounds file entry yields.
pub open spec fn file_entry_of(e: EntryView) -> FileEntry {
    FileEntry {
        header_offset: e.header_offset,
        header_size: (e.data_start - e.header_offset) as u64,
        compressed: e.compressed,
        uncompressed: e.uncompressed,
        method: e.method,
    }
}

/// Whether `s` holds two adjacent separators anywhere.
pub open spec fn has_double_slash(s: Seq<u8>) -> bool {
    exists|i: int| 0 <= i && i + 1 < s.len() && #[trigger] s[i] == SLASH && s[i + 1] == SLASH
}

/// `s` with every trailing separator removed.
pub open spec fn trim_trailing_slashes(s: Seq<u8>) -> Seq<u8>
    decreases s.len(),
{
    if s.len() > 0 && s.last() == SLASH {
        trim_trailing_slashes(s.drop_last())
    } else {
        s
    }
}

/// Whether an archive-stored entry name is acceptable: no backslash, no
/// empty interior segment, and, once trailing separators are trimmed,
/// neither empty nor absolute.
pub open spec fn entry_name_ok(name: Seq<u8>) -> bool {
    &&& !contains_byte(name, BACKSLASH)
    &&& !has_double_slash(name)
    &&& trim_trailing_slashes(name).len() > 0
    &&& trim_trailing_slashes(name)[0] != SLASH
}

/// Decide whether `v` holds two adjacent separators.
pub fn find_double_slash(v: &Vec<u8>) -> (r: bool)
    ensures
        r == has_double_slash(v@),
{
    if v.len() < 2 {
        return false;
    }
    let mut i: usize = 0;
    while i < v.len() - 1
        invariant
            v@.len() >= 2,
            i <= v@.len() - 1,
            forall|j: int| 0 <= j && j + 1 < i + 1 ==> !(#[trigger] v@[j] == SLASH && v@[j + 1]
                == SLASH),
        decreases v@.len() - i,
    {
        if v[i] == SLASH && v[i + 1] == SLASH {
            return true;
        }
        i = i + 1;
    }
    false
}

/// Return `v` with every trailing separator removed.
pub fn trim_trailing(v: &Vec<u8>) -> (r: Vec<u8>)
    ensures
        r@ == trim_trailing_slashes(v@),
{
    let mut j: usize = v.len();
    while j > 0 && v[j - 1] == SLASH
        invariant
            j <= v@.len(),
            forall|k: int| j <= k < v@.len() ==> v@[k] == SLASH,
        decreases j,
    {
        j = j - 1;
    }
    let r = copy_range(v, 0, j);
    proof {
        lemma_trim_prefix(v@, j as int);
    }
    r
}

/// Trimming all trailing separators of `s` yields exactly the prefix that
/// ends at the last non-separator byte.
proof fn lemma_trim_prefix(s: Seq<u8>, j: int)
    requires
        0 <= j <= s.len(),
        forall|k: int| j <= k < s.len() ==> s[k] == SLASH,
        j == 0 || s[j - 1] != SLASH,
    ensures
        trim_trailing_slashes(s) == s.subrange(0, j),
    decreases s.len(),
{
    if s.len() > 0 && s.last() == SLASH {
        assert(j < s.len());
        lemma_trim_prefix(s.drop_last(), j);
        assert(s.drop_last().subrange(0, j) =~= s.subrange(0, j));
    } else {
        assert(j == s.len());
        assert(s.subrange(0, j) =~= s);
    }
}

} // verus!
