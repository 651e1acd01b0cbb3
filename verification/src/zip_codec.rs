//! The trusted boundary to the archive container library for the read
//! side: opening an archive held in memory and enumerating its central
//! directory.  Each item's contract states only what the library's source
//! shows; the parse result is given a name, since writing it out would
//! mean restating the whole container format.

use vstd::prelude::*;
use crate::entry::{CompressionMethod, EntryView, RawEntry};
use crate::error::{Error, IoKind};

verus! {

#[verifier::external_type_specification]
#[verifier::external_body]
#[verifier::reject_recursive_types(R)]
pub struct ExZipArchive<R>(zip::read::ZipArchive<R>);

#[verifier::external_type_specification]
#[verifier::external_body]
#[verifier::reject_recursive_types(T)]
pub struct ExCursor<T>(std::io::Cursor<T>);

#[verifier::external_type_specification]
#[verifier::external_body]
pub struct ExZipError(zip::result::ZipError);

/// The entry records that parsing `bytes` as an archive yields: the outer
/// option is whether the archive opens at all, and each inner option is
/// one central-directory slot, absent when that entry cannot be read
/// (encrypted, or an unsupported method).  Parsing depends on the bytes
/// alone, which is what this name asserts.
pub uninterp spec fn zip_open_of(bytes: Seq<u8>) -> Option<Seq<Option<EntryView>>>;

/// The entry records held by an already-opened archive, one slot per
/// central-directory entry, in archive order.
pub uninterp spec fn archive_entry_oks(
    a: zip::read::ZipArchive<std::io::Cursor<Vec<u8>>>,
) -> Seq<Option<EntryView>>;

/// The per-slot view of an enumerated entry list.
pub open spec fn entry_opts(s: Seq<Result<RawEntry, Error>>) -> Seq<Option<EntryView>> {
    s.map_values(
        |r: Result<RawEntry, Error>|
            match r {
                Ok(e) => Some(e@),
                Err(_) => None::<EntryView>,
            },
    )
}

/// Relies on `zip::read::ZipArchive::new`: parsing the central directory
/// of the given bytes, deterministically.
#[verifier::external_body]
fn zip_open_vec(data: Vec<u8>) -> (r: Result<
    zip::read::ZipArchive<std::io::Cursor<Vec<u8>>>,
    zip::result::ZipError,
>)
    ensures
        match r {
            Ok(a) => zip_open_of(data@) == Some(archive_entry_oks(a)),
            Err(_) => zip_open_of(data@) is None,
        },
{
    zip::read::ZipArchive::new(std::io::Cursor::new(data))
}

/// Relies on `zip::read::ZipArchive::len`: the number of entries in the
/// central directory.
#[verifier::external_body]
fn zip_count(a: &zip::read::ZipArchive<std::io::Cursor<Vec<u8>>>) -> (r: usize)
    ensures
        r == archive_entry_oks(*a).len(),
{
    a.len()
}

/// Relies on `zip::read::ZipArchive::by_index` and the entry accessors
/// (`name_raw`, `is_file`, `is_dir`, `header_start`, `data_start`,
/// `compressed_size`, `size`, `compression`): copying one entry's
/// central-directory record into plain values, without changing what the
/// archive holds.
#[verifier::external_body]
fn zip_entry_at(
    a: &mut zip::read::ZipArchive<std::io::Cursor<Vec<u8>>>,
    i: usize,
) -> (r: Result<RawEntry, zip::result::ZipError>)
    requires
        i < archive_entry_oks(*old(a)).len(),
    ensures
        archive_entry_oks(*final(a)) == archive_entry_oks(*old(a)),
        match r {
            Ok(en) => archive_entry_oks(*old(a))[i as int] == Some(en@),
            Err(_) => archive_entry_oks(*old(a))[i as int] is None,
        },
{
    let f = a.by_index(i)?;
    let ds = f.data_start().ok_or(zip::result::ZipError::InvalidArchive("no data start".into()))?;
    let method = match f.compression() {
        zip::CompressionMethod::Stored => CompressionMethod::Stored,
        zip::CompressionMethod::Deflated => CompressionMethod::Deflated,
        zip::CompressionMethod::Bzip2 => CompressionMethod::Bzip2,
        m => CompressionMethod::Other(m.to_u16()),
    };
    Ok(RawEntry { name: f.name_raw().to_vec(), is_file: f.is_file(), is_dir: f.is_dir(),
        header_offset: f.header_start(), data_start: ds, compressed: f.compressed_size(),
        uncompressed: f.size(), method })
}

/// Relies on `zip::result::ZipError` and its `Display` impl: translating
/// the archive library's error into this library's categories, one
/// variant at a time.
#[verifier::external_body]
pub fn zip_error_to_error(e: zip::result::ZipError) -> (r: Error)
{
    match e {
        zip::result::ZipError::Io(io) => Error::Io {
            kind: IoKind::OtherIo,
            message: io.to_string(),
        },
        zip::result::ZipError::InvalidArchive(m) => Error::InvalidArchive {
            message: m.into_owned(),
        },
        zip::result::ZipError::UnsupportedArchive(m) => Error::Unsupported { message: m },
        zip::result::ZipError::FileNotFound => Error::FileNotFound,
        other => Error::Other { message: other.to_string() },
    }
}

/// The bytes a successful in-memory decode of one entry yields: the
/// local file header re-parsed from `bytes` and the first `out_len`
/// decompressed bytes behind it.  The decode depends on the buffer and
/// the requested length alone, which is what this name asserts; writing
/// the result out would mean restating the container format and its
/// codecs.
pub uninterp spec fn zip_decode_of(bytes: Seq<u8>, out_len: nat) -> Seq<u8>;

/// Relies on `zip::read::read_zipfile_from_stream` and `Read::read_exact`:
/// re-parse the local file header held in `buf` (the header-derived sizes
/// are treated as estimates) and decompress exactly `out_len` bytes of
/// the entry's content into memory.
#[verifier::external_body]
pub fn decode_entry_buffer(buf: Vec<u8>, out_len: usize) -> (r: Result<Vec<u8>, Error>)
    ensures
        r matches Ok(v) ==> v@.len() == out_len && v@ == zip_decode_of(buf@, out_len as nat),
{
    let mut cur = std::io::Cursor::new(buf);
    let mut zf = zip::read::read_zipfile_from_stream(&mut cur)
        .map_err(|e| Error::Other { message: e.to_string() })?
        .ok_or(Error::InvalidArchive { message: "expected a file entry".to_string() })?;
    let mut out = vec![0u8; out_len];
    std::io::Read::read_exact(&mut zf, &mut out)
        .map_err(|e| Error::Io { kind: IoKind::OtherIo, message: e.to_string() })?;
    Ok(out)
}

/// Enumerate the entries of an archive held in `data`, each slot either a
/// plain record or the error that entry raises.
pub fn list_entries_of_vec(data: Vec<u8>) -> (r: Result<Vec<Result<RawEntry, Error>>, Error>)
    ensures
        match r {
            Ok(v) => zip_open_of(data@) == Some(entry_opts(v@)),
            Err(_) => zip_open_of(data@) is None,
        },
{
    let ghost dv = data@;
    let mut a = match zip_open_vec(data) {
        Ok(a) => a,
        Err(ze) => {
            return Err(zip_error_to_error(ze));
        },
    };
    let ghost views = archive_entry_oks(a);
    let n = zip_count(&a);
    let mut out: Vec<Result<RawEntry, Error>> = Vec::new();
    let mut i: usize = 0;
    while i < n
        invariant
            i <= n,
            n == views.len(),
            archive_entry_oks(a) == views,
            out@.len() == i,
            zip_open_of(dv) == Some(views),
            forall|k: int|
                0 <= k < i ==> (match #[trigger] out@[k] {
                    Ok(e) => Some(e@),
                    Err(_) => None::<EntryView>,
                }) == views[k],
        decreases n - i,
    {
        match zip_entry_at(&mut a, i) {
            Ok(en) => out.push(Ok(en)),
            Err(ze) => out.push(Err(zip_error_to_error(ze))),
        }
        i = i + 1;
    }
    proof {
        assert forall|k: int| 0 <= k < views.len() implies entry_opts(out@)[k] == views[k] by {
            assert(entry_opts(out@)[k] == (match out@[k] {
                Ok(e) => Some(e@),
                Err(_) => None::<EntryView>,
            }));
        }
        assert(entry_opts(out@) =~= views);
    }
    Ok(out)
}

} // verus!
