//! Unit tests of the seek arithmetic, the offset-addressable sources and
//! the stream adapters, plus the shared locked-stream source.

use std::cell::RefCell;
use std::rc::Rc;
use vfs_zip::abs_seek_pos::{AbsSeekPos, SeekFrom};
use vfs_zip::entry::{CompressionMethod, RawEntry};
use vfs_zip::error::{Error, IoKind, VfsError};
use vfs_zip::read_at_cursor::ReadAtCursor;
use vfs_zip::read_at_len::{ReadAt, ReadAtLen, SeekRead, SeeklessBlob, SeeklessSharedIO};
use vfs_zip::read_range::ReadRange;
use vfs_zip::zip_read_only::ZipReadOnly;

#[test]
fn add_handles_signs_and_overflow() {
    assert_eq!(AbsSeekPos::add(10, 5).unwrap(), 15);
    assert_eq!(AbsSeekPos::add(10, -10).unwrap(), 0);
    assert_eq!(AbsSeekPos::add(10, 0).unwrap(), 10);
    assert!(AbsSeekPos::add(10, -11).is_err());
    assert!(AbsSeekPos::add(u64::MAX, 1).is_err());
    assert_eq!(AbsSeekPos::add(0, i64::MIN).err().is_some(), true);
    assert_eq!(AbsSeekPos::add(u64::MAX, i64::MIN).unwrap(), u64::MAX - (1u64 << 63));
}

#[test]
fn offset_bounded_keeps_targets_inside() {
    let cur = AbsSeekPos(50);
    assert_eq!(cur.offset_bounded(SeekFrom::Start(0), 100).unwrap().0, 0);
    assert_eq!(cur.offset_bounded(SeekFrom::Start(100), 100).unwrap().0, 100);
    assert!(cur.offset_bounded(SeekFrom::Start(101), 100).is_err());
    assert_eq!(cur.offset_bounded(SeekFrom::End(0), 100).unwrap().0, 100);
    assert_eq!(cur.offset_bounded(SeekFrom::End(-100), 100).unwrap().0, 0);
    assert!(cur.offset_bounded(SeekFrom::End(1), 100).is_err());
    assert!(cur.offset_bounded(SeekFrom::End(-101), 100).is_err());
    assert_eq!(cur.offset_bounded(SeekFrom::Current(50), 100).unwrap().0, 100);
    assert_eq!(cur.offset_bounded(SeekFrom::Current(-50), 100).unwrap().0, 0);
    assert!(cur.offset_bounded(SeekFrom::Current(51), 100).is_err());
    assert!(cur.offset_bounded(SeekFrom::Current(-51), 100).is_err());
}

#[test]
fn offset_unbounded_only_checks_the_ends() {
    let cur = AbsSeekPos(50);
    assert_eq!(cur.offset_unbounded(SeekFrom::Start(1000), 100).unwrap().0, 1000);
    assert_eq!(cur.offset_unbounded(SeekFrom::Current(1000), 100).unwrap().0, 1050);
    assert!(cur.offset_unbounded(SeekFrom::Current(-51), 100).is_err());
}

#[test]
fn blob_reads_are_exact_and_clamped() {
    let blob = SeeklessBlob::new(vec![1, 2, 3, 4, 5]);
    assert_eq!(blob.read_at(0, 3).unwrap(), vec![1, 2, 3]);
    assert_eq!(blob.read_at(3, 10).unwrap(), vec![4, 5]);
    assert!(blob.read_at(5, 1).is_err());
    assert!(blob.read_at(5, 0).is_err());
    assert_eq!(blob.read_exact_at(1, 3).unwrap(), vec![2, 3, 4]);
    assert!(blob.read_exact_at(3, 3).is_err());
    let dup = blob.duplicate();
    assert_eq!(dup.read_at(0, 5).unwrap(), vec![1, 2, 3, 4, 5]);
}

#[test]
fn cursor_reads_advance_and_stop_at_the_end() {
    let blob = SeeklessBlob::new((0u8..100).collect());
    let mut c = ReadAtCursor::new(blob, 100);
    assert_eq!(c.read(10).unwrap(), (0u8..10).collect::<Vec<u8>>());
    assert_eq!(c.read(200).unwrap(), (10u8..100).collect::<Vec<u8>>());
    assert_eq!(c.read(1).unwrap(), Vec::<u8>::new());
    assert_eq!(c.seek(SeekFrom::Start(95)).unwrap(), 95);
    assert_eq!(c.read_exact(5).unwrap(), (95u8..100).collect::<Vec<u8>>());
    assert_eq!(c.seek(SeekFrom::Start(96)).unwrap(), 96);
    assert!(c.read_exact(5).is_err());
}

#[test]
fn range_views_translate_and_clamp() {
    let blob = SeeklessBlob::new((0u8..100).collect());
    let mut rr = ReadRange::new(blob, 20..30);
    assert_eq!(rr.read_at(0, 4).unwrap(), vec![20, 21, 22, 23]);
    assert_eq!(rr.read_at(8, 10).unwrap(), vec![28, 29]);
    assert!(rr.read_at(11, 1).is_err());
    assert_eq!(rr.read(6).unwrap(), vec![20, 21, 22, 23, 24, 25]);
    assert_eq!(rr.seek(SeekFrom::End(-2)).unwrap(), 8);
    assert_eq!(rr.read(100).unwrap(), vec![28, 29]);
    assert!(rr.seek(SeekFrom::Start(11)).is_err());
    assert_eq!(rr.seek(SeekFrom::Start(10)).unwrap(), 10);
}

/// A stream over shared bytes, for exercising the locked-stream source.
struct MemStream {
    data: Rc<RefCell<Vec<u8>>>,
    pos: usize,
}

impl SeekRead for MemStream {
    fn sr_seek_start(&mut self, pos: u64) -> Result<(), Error> {
        self.pos = pos as usize;
        Ok(())
    }

    fn sr_len(&mut self) -> Result<u64, Error> {
        Ok(self.data.borrow().len() as u64)
    }

    fn sr_read(&mut self, len: usize) -> Result<Vec<u8>, Error> {
        let data = self.data.borrow();
        let from = self.pos.min(data.len());
        let to = (from + len).min(data.len());
        self.pos = to;
        Ok(data[from..to].to_vec())
    }

    fn sr_read_exact(&mut self, len: usize) -> Result<Vec<u8>, Error> {
        let v = self.sr_read(len)?;
        if v.len() != len {
            return Err(Error::FileNotFound);
        }
        Ok(v)
    }
}

fn build_stream_archive() -> (Rc<RefCell<Vec<u8>>>, Vec<u8>, Vec<u8>) {
    let one: Vec<u8> = (0..30000u32).map(|i| (i % 241) as u8).collect();
    let two: Vec<u8> = (0..25000u32).map(|i| (i % 199) as u8).collect();
    let mut w = zip::write::ZipWriter::new(std::io::Cursor::new(Vec::new()));
    let deflate = zip::write::SimpleFileOptions::default().compression_method(
        zip::CompressionMethod::Deflated,
    );
    w.start_file("one.bin".to_string(), deflate).unwrap();
    std::io::Write::write_all(&mut w, &one).unwrap();
    w.start_file("two.bin".to_string(), deflate).unwrap();
    std::io::Write::write_all(&mut w, &two).unwrap();
    let bytes = w.finish().unwrap().into_inner();
    (Rc::new(RefCell::new(bytes)), one, two)
}

#[test]
fn shared_locked_streams_serve_the_same_archive() {
    let (data, one, two) = build_stream_archive();
    let stream = MemStream { data, pos: 0 };
    let source = SeeklessSharedIO::new(stream);
    let z = ZipReadOnly::new_strict(source).unwrap();

    // Two large compressed entries, opened together over the one shared
    // stream, both decode correctly with interleaved reads.
    let mut h1 = z.open_file(&b"one.bin".to_vec()).unwrap();
    let mut h2 = z.open_file(&b"two.bin".to_vec()).unwrap();
    let mut got1 = Vec::new();
    let mut got2 = Vec::new();
    loop {
        let c1 = h1.read(1024).unwrap();
        let c2 = h2.read(512).unwrap();
        if c1.is_empty() && c2.is_empty() {
            break;
        }
        got1.extend_from_slice(&c1);
        got2.extend_from_slice(&c2);
    }
    assert_eq!(got1, one);
    assert_eq!(got2, two);
}

#[test]
fn oversized_entries_without_a_streaming_path_are_refused() {
    // A source that is not an in-memory buffer, with an entry too large
    // to buffer and no streaming path for its method: the open is
    // refused before any read happens.
    let stream = MemStream { data: Rc::new(RefCell::new(Vec::new())), pos: 0 };
    let source = SeeklessSharedIO::new(stream);
    let big = 2u64 << 30;
    let entry = RawEntry {
        name: b"huge.bin".to_vec(),
        is_file: true,
        is_dir: false,
        header_offset: 0,
        data_start: 64,
        compressed: big,
        uncompressed: big,
        method: CompressionMethod::Other(99),
    };
    let z = vfs_zip::zip_read_only::ZipReadOnly::from_entry_list(
        source,
        big + 64,
        vec![Ok(entry)],
        false,
    ).unwrap();
    assert!(matches!(
        z.open_file(&b"huge.bin".to_vec()),
        Err(VfsError::Other { .. })
    ));
}

#[test]
fn stored_size_mismatch_is_a_data_error() {
    let entry = RawEntry {
        name: b"broken".to_vec(),
        is_file: true,
        is_dir: false,
        header_offset: 0,
        data_start: 0,
        compressed: 4,
        uncompressed: 9,
        method: CompressionMethod::Stored,
    };
    let z = vfs_zip::zip_read_only::ZipReadOnly::from_entry_list(
        SeeklessBlob::new(vec![0u8; 16]),
        16,
        vec![Ok(entry)],
        false,
    ).unwrap();
    match z.open_file(&b"broken".to_vec()) {
        Err(VfsError::IoError(Error::Io { kind, .. })) => {
            assert!(matches!(kind, IoKind::InvalidData));
        },
        other => panic!("unexpected outcome: {:?}", other.map(|_| ())),
    }
}

#[test]
fn per_entry_errors_follow_the_policy_flag() {
    let good = RawEntry {
        name: b"good".to_vec(),
        is_file: true,
        is_dir: false,
        header_offset: 0,
        data_start: 0,
        compressed: 0,
        uncompressed: 0,
        method: CompressionMethod::Stored,
    };
    let broken = || Err(Error::Other { message: "unreadable entry".to_string() });
    let good_again = RawEntry {
        name: b"good".to_vec(),
        is_file: true,
        is_dir: false,
        header_offset: 0,
        data_start: 0,
        compressed: 0,
        uncompressed: 0,
        method: CompressionMethod::Stored,
    };
    let strict = vfs_zip::zip_read_only::ZipReadOnly::from_entry_list(
        SeeklessBlob::new(Vec::new()),
        0,
        vec![broken(), Ok(good)],
        false,
    );
    assert!(strict.is_err());
    let relaxed = vfs_zip::zip_read_only::ZipReadOnly::from_entry_list(
        SeeklessBlob::new(Vec::new()),
        0,
        vec![broken(), Ok(good_again)],
        true,
    ).unwrap();
    assert!(relaxed.path_exists(&b"good".to_vec()));
}

#[test]
fn opening_garbage_bytes_fails() {
    let z = ZipReadOnly::new_strict(vec![1u8, 2, 3, 4, 5]);
    assert!(z.is_err());
}

#[test]
fn conversion_reports_the_source_length() {
    let data: Vec<u8> = vec![7; 321];
    let (blob, len) = data.into_read_at_len().unwrap();
    assert_eq!(len, 321);
    assert_eq!(blob.len(), 321);
    let (blob2, len2) = blob.into_read_at_len().unwrap();
    assert_eq!(len2, 321);
    assert_eq!(blob2.read_at(320, 5).unwrap(), vec![7]);
}
