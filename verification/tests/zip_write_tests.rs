//! End-to-end tests of the write-only filesystem and the read-back of
//! what it commits.

use std::cell::RefCell;
use std::rc::Rc;
use vfs_zip::error::{Error, VfsError};
use vfs_zip::vfs_meta::VfsFileType;
use vfs_zip::zip_read_only::ZipReadOnly;
use vfs_zip::zip_write_only::{WriteSink, ZipWriteOnly};

/// A sink collecting the finished archive bytes in memory.
struct CollectSink(Rc<RefCell<Vec<u8>>>);

impl WriteSink for CollectSink {
    fn ws_write_all(&mut self, buf: &Vec<u8>) -> Result<(), Error> {
        self.0.borrow_mut().extend_from_slice(buf);
        Ok(())
    }
}

fn fresh_sink() -> (CollectSink, Rc<RefCell<Vec<u8>>>) {
    let shared = Rc::new(RefCell::new(Vec::new()));
    (CollectSink(Rc::clone(&shared)), shared)
}

fn build_source(entries: &[(&str, &[u8], zip::CompressionMethod)]) -> Vec<u8> {
    let mut w = zip::write::ZipWriter::new(std::io::Cursor::new(Vec::new()));
    for (name, data, method) in entries {
        let opts = zip::write::SimpleFileOptions::default().compression_method(*method);
        w.start_file(name.to_string(), opts).unwrap();
        std::io::Write::write_all(&mut w, data).unwrap();
    }
    w.finish().unwrap().into_inner()
}

#[test]
fn created_directories_are_queryable() {
    let (sink, _shared) = fresh_sink();
    let mut z = ZipWriteOnly::new_strong(sink).unwrap();
    assert!(z.path_exists(&b"".to_vec()));
    assert!(!z.path_exists(&b"docs".to_vec()));

    // The root spellings are a no-op success that never touches the
    // archive writer.
    z.create_dir(&b"".to_vec()).unwrap();
    z.create_dir(&b"/".to_vec()).unwrap();

    z.create_dir(&b"docs".to_vec()).unwrap();
    assert!(z.path_exists(&b"docs".to_vec()));
    assert!(z.path_exists(&b"docs/".to_vec()));
    let m = z.metadata(&b"docs".to_vec()).unwrap();
    assert_eq!(m.file_type, VfsFileType::Directory);
    assert_eq!(m.len, 0);

    assert!(matches!(
        z.metadata(&b"missing".to_vec()),
        Err(VfsError::FileNotFound { .. })
    ));
    assert!(matches!(
        z.create_dir(&b"bad\\name".to_vec()),
        Err(VfsError::InvalidPath { .. })
    ));
    assert!(!z.path_exists(&b"x\\y".to_vec()));
}

#[test]
fn exists_agrees_with_metadata_on_the_write_side() {
    let (sink, _shared) = fresh_sink();
    let mut z = ZipWriteOnly::new_strong(sink).unwrap();
    z.create_dir(&b"a".to_vec()).unwrap();
    z.create_dir(&b"a/b".to_vec()).unwrap();
    let probes: Vec<&[u8]> = vec![
        b"", b"/", b"a", b"a/", b"a/b", b"missing", b"//a", b"a\\b", b"./a/",
    ];
    for p in probes {
        let path = p.to_vec();
        assert_eq!(z.path_exists(&path), z.metadata(&path).is_ok());
    }
}

#[test]
fn written_files_commit_on_close_and_read_back() {
    let (sink, shared) = fresh_sink();
    let mut z = ZipWriteOnly::new_strong(sink).unwrap();
    z.create_dir(&b"docs".to_vec()).unwrap();

    let mut f = z.create_file(&b"docs/note.txt".to_vec()).unwrap();
    f.write_all(&b"first ".to_vec()).unwrap();
    f.write_all(&b"second".to_vec()).unwrap();
    f.close().unwrap();

    let mut g = z.create_file(&b"top.bin".to_vec()).unwrap();
    g.write_all(&vec![9u8; 2000]).unwrap();
    g.close().unwrap();

    z.finish().unwrap();
    let bytes = shared.borrow().clone();
    let r = ZipReadOnly::new_strict(bytes).unwrap();

    let mut h = r.open_file(&b"docs/note.txt".to_vec()).unwrap();
    assert_eq!(h.read(64).unwrap(), b"first second".to_vec());
    let mut h2 = r.open_file(&b"top.bin".to_vec()).unwrap();
    assert_eq!(h2.read(4000).unwrap(), vec![9u8; 2000]);
    assert!(r.path_exists(&b"docs".to_vec()));
}

#[test]
fn copy_early_archive_between_filesystems() {
    // Copy every file of a read-only instance into a fresh write-only
    // instance in weak mode, keeping the destination alive throughout,
    // then re-parse the result and compare byte for byte.
    let paths: Vec<&str> = vec![
        "subdir/one.txt",
        "subdir/nested/two.bin",
        "three.dat",
    ];
    let contents: Vec<Vec<u8>> = vec![
        b"the first file".to_vec(),
        (0..5000u32).map(|i| (i % 251) as u8).collect(),
        b"".to_vec(),
    ];
    let src_bytes = build_source(&[
        ("subdir/one.txt", &contents[0], zip::CompressionMethod::Deflated),
        ("subdir/nested/two.bin", &contents[1], zip::CompressionMethod::Stored),
        ("three.dat", &contents[2], zip::CompressionMethod::Stored),
    ]);
    let src = ZipReadOnly::new_strict(src_bytes).unwrap();

    let (sink, shared) = fresh_sink();
    let mut dst = ZipWriteOnly::new_weak(sink).unwrap();
    dst.create_dir(&b"subdir".to_vec()).unwrap();
    dst.create_dir(&b"subdir/nested".to_vec()).unwrap();

    for (i, p) in paths.iter().enumerate() {
        let want = contents[i].len();
        let mut from = src.open_file(&p.as_bytes().to_vec()).unwrap();
        let data = from.read(want + 16).unwrap();
        assert_eq!(data.len(), want);
        let mut to = dst.create_file(&p.as_bytes().to_vec()).unwrap();
        to.write_all(&data).unwrap();
        to.close().unwrap();
    }
    dst.finish().unwrap();

    let copy = ZipReadOnly::new_strict(shared.borrow().clone()).unwrap();
    for (i, p) in paths.iter().enumerate() {
        let mut h = copy.open_file(&p.as_bytes().to_vec()).unwrap();
        let got = h.read(contents[i].len() + 16).unwrap();
        assert_eq!(got, contents[i], "file {}", p);
    }
    let mut top = copy.read_dir(&b"".to_vec()).unwrap();
    top.sort();
    assert_eq!(top, vec![b"subdir".to_vec(), b"three.dat".to_vec()]);
}

#[test]
fn weak_handles_discard_after_the_filesystem_is_gone() {
    let (sink, shared) = fresh_sink();
    let mut z = ZipWriteOnly::new_weak(sink).unwrap();
    let mut f = z.create_file(&b"late.txt".to_vec()).unwrap();
    f.write_all(&b"doomed bytes".to_vec()).unwrap();
    z.finish().unwrap();
    drop(z);
    // The writer is gone; the close silently discards the buffer.
    f.close().unwrap();
    let r = ZipReadOnly::new_strict(shared.borrow().clone()).unwrap();
    assert!(!r.path_exists(&b"late.txt".to_vec()));
}

#[test]
fn strong_handles_commit_after_the_filesystem_is_gone() {
    let (sink, shared) = fresh_sink();
    let z = ZipWriteOnly::new_strong(sink).unwrap();
    let mut f = z.create_file(&b"kept.txt".to_vec()).unwrap();
    f.write_all(&b"still here".to_vec()).unwrap();
    f.close().unwrap();
    // The shared writer lives in the filesystem value; finish after the
    // commit.
    let mut z = z;
    z.finish().unwrap();
    let r = ZipReadOnly::new_strict(shared.borrow().clone()).unwrap();
    let mut h = r.open_file(&b"kept.txt".to_vec()).unwrap();
    assert_eq!(h.read(64).unwrap(), b"still here".to_vec());
}

#[test]
fn reading_operations_are_not_supported_on_the_write_side() {
    let (sink, _shared) = fresh_sink();
    let z = ZipWriteOnly::new_strong(sink).unwrap();
    let p = b"x".to_vec();
    assert!(matches!(z.read_dir(&p), Err(VfsError::NotSupported)));
    assert!(matches!(z.open_file(&p), Err(VfsError::NotSupported)));
    assert!(matches!(z.append_file(&p), Err(VfsError::NotSupported)));
    assert!(matches!(z.remove_file(&p), Err(VfsError::NotSupported)));
    assert!(matches!(z.remove_dir(&p), Err(VfsError::NotSupported)));
    assert!(matches!(z.copy_file(&p, &p), Err(VfsError::NotSupported)));
    assert!(matches!(z.move_file(&p, &p), Err(VfsError::NotSupported)));
    assert!(matches!(z.move_dir(&p, &p), Err(VfsError::NotSupported)));
}

#[test]
fn create_file_rejects_bad_paths_and_tracks_weakness() {
    let (sink, _shared) = fresh_sink();
    let z = ZipWriteOnly::new_strong(sink).unwrap();
    assert!(matches!(
        z.create_file(&b"a//b".to_vec()),
        Err(VfsError::InvalidPath { .. })
    ));
    assert!(matches!(
        z.create_file(&b"trailing/".to_vec()),
        Err(VfsError::InvalidPath { .. })
    ));
    let f = z.create_file(&b"/leading".to_vec()).unwrap();
    let mut f = f;
    assert_eq!(f.write(&b"ab".to_vec()).unwrap(), 2);
    f.flush().unwrap();
    f.close().unwrap();
}
