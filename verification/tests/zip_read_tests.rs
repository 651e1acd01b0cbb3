//! End-to-end tests of the read-only filesystem over in-memory archives.

use vfs_zip::abs_seek_pos::SeekFrom;
use vfs_zip::entry::{CompressionMethod, FileEntry, RawEntry};
use vfs_zip::error::VfsError;
use vfs_zip::read_at_len::SeeklessBlob;
use vfs_zip::vfs_meta::VfsFileType;
use vfs_zip::zip_read_only::{
    ExtractStrategy, LIMIT_ALLOW_IN_MEMORY, LIMIT_PREFER_IN_MEMORY, ZipFileReader, ZipReadOnly,
    choose_strategy,
};

fn build_archive(entries: &[(&str, &[u8], zip::CompressionMethod)]) -> Vec<u8> {
    let mut w = zip::write::ZipWriter::new(std::io::Cursor::new(Vec::new()));
    for (name, data, method) in entries {
        let opts = zip::write::SimpleFileOptions::default().compression_method(*method);
        w.start_file(name.to_string(), opts).unwrap();
        std::io::Write::write_all(&mut w, data).unwrap();
    }
    w.finish().unwrap().into_inner()
}

fn read_all(h: &mut ZipFileReader<SeeklessBlob>, expect_len: usize) -> Vec<u8> {
    h.read(expect_len + 16).unwrap()
}

fn patterned(n: usize) -> Vec<u8> {
    (0..n).map(|i| ((i * 7 + i / 251) % 256) as u8).collect()
}

#[test]
fn synthesized_directories_are_listed() {
    let bytes = build_archive(&[(
        "docs/readme.txt",
        b"hello archive",
        zip::CompressionMethod::Stored,
    )]);
    let z = ZipReadOnly::new_strict(bytes).unwrap();

    let listing = z.read_dir(&b"docs".to_vec()).unwrap();
    assert_eq!(listing, vec![b"readme.txt".to_vec()]);

    let root = z.read_dir(&b"".to_vec()).unwrap();
    assert_eq!(root, vec![b"docs".to_vec()]);

    let m = z.metadata(&b"docs".to_vec()).unwrap();
    assert_eq!(m.file_type, VfsFileType::Directory);
    assert_eq!(m.len, 0);

    let mf = z.metadata(&b"docs/readme.txt".to_vec()).unwrap();
    assert_eq!(mf.file_type, VfsFileType::File);
    assert_eq!(mf.len, 13);
}

#[test]
fn exists_agrees_with_metadata_on_path_variants() {
    let bytes = build_archive(&[
        ("docs/readme.txt", b"hello" as &[u8], zip::CompressionMethod::Stored),
        ("docs/sub/deep.bin", b"x", zip::CompressionMethod::Stored),
    ]);
    let z = ZipReadOnly::new_strict(bytes).unwrap();
    let probes: Vec<&[u8]> = vec![
        b"",
        b"/",
        b"docs",
        b"docs/",
        b"/docs",
        b"/docs/",
        b"docs/readme.txt",
        b"/docs/readme.txt",
        b"docs/readme.txt/",
        b"docs/sub",
        b"docs/sub/deep.bin",
        b"missing",
        b"docs/missing",
        b"//docs",
        b"docs//readme.txt",
        b"x\\y",
        b"./docs/",
        b"../docs",
        b".",
        b"..",
    ];
    for p in probes {
        let path = p.to_vec();
        assert_eq!(
            z.path_exists(&path),
            z.metadata(&path).is_ok(),
            "probe {:?}",
            String::from_utf8_lossy(p)
        );
    }
}

#[test]
fn caller_path_shapes_are_always_rejected() {
    let bytes = build_archive(&[("x", b"1" as &[u8], zip::CompressionMethod::Stored)]);
    let z = ZipReadOnly::new_strict(bytes).unwrap();
    for bad in [b"//x".to_vec(), b"x\\y".to_vec(), b"./x/".to_vec()] {
        assert!(matches!(z.open_file(&bad), Err(VfsError::InvalidPath { .. })));
        assert!(matches!(z.metadata(&bad), Err(VfsError::InvalidPath { .. })));
        assert!(matches!(z.read_dir(&bad), Err(VfsError::InvalidPath { .. })));
        assert!(!z.path_exists(&bad));
    }
}

#[test]
fn file_and_directory_mismatches_are_reported() {
    let bytes = build_archive(&[(
        "docs/readme.txt",
        b"hello" as &[u8],
        zip::CompressionMethod::Stored,
    )]);
    let z = ZipReadOnly::new_strict(bytes).unwrap();

    assert!(matches!(z.read_dir(&b"docs/readme.txt".to_vec()), Err(VfsError::Other { .. })));
    assert!(matches!(z.open_file(&b"docs".to_vec()), Err(VfsError::Other { .. })));
    assert!(matches!(
        z.open_file(&b"missing".to_vec()),
        Err(VfsError::FileNotFound { .. })
    ));
    assert!(matches!(
        z.read_dir(&b"missing".to_vec()),
        Err(VfsError::FileNotFound { .. })
    ));
    // A trailing slash puts the path in directory context, so the file is
    // not found under it.
    assert!(matches!(
        z.metadata(&b"docs/readme.txt/".to_vec()),
        Err(VfsError::FileNotFound { .. })
    ));
}

#[test]
fn boundary_sizes_select_different_strategies_with_equal_content() {
    let small = patterned(LIMIT_PREFER_IN_MEMORY as usize);
    let large = patterned(LIMIT_PREFER_IN_MEMORY as usize + 1);
    let bytes = build_archive(&[
        ("exact", &small, zip::CompressionMethod::Stored),
        ("plus_one", &large, zip::CompressionMethod::Stored),
    ]);
    let z = ZipReadOnly::new_strict(bytes).unwrap();

    let mut h1 = z.open_file(&b"exact".to_vec()).unwrap();
    assert!(matches!(h1, ZipFileReader::Memory(_)));
    assert_eq!(read_all(&mut h1, small.len()), small);

    let mut h2 = z.open_file(&b"plus_one".to_vec()).unwrap();
    assert!(matches!(h2, ZipFileReader::Ranged(_)));
    assert_eq!(read_all(&mut h2, large.len()), large);
}

#[test]
fn strategy_selection_follows_the_thresholds() {
    let fe = |method: CompressionMethod, compressed: u64, uncompressed: u64| FileEntry {
        header_offset: 0,
        header_size: 30,
        compressed,
        uncompressed,
        method,
    };
    assert_eq!(
        choose_strategy(&fe(CompressionMethod::Stored, 10, 10)),
        ExtractStrategy::MemoryDirect
    );
    assert_eq!(
        choose_strategy(&fe(CompressionMethod::Stored, LIMIT_PREFER_IN_MEMORY,
            LIMIT_PREFER_IN_MEMORY)),
        ExtractStrategy::MemoryDirect
    );
    assert_eq!(
        choose_strategy(&fe(CompressionMethod::Stored, LIMIT_PREFER_IN_MEMORY + 1,
            LIMIT_PREFER_IN_MEMORY + 1)),
        ExtractStrategy::RangedStream
    );
    assert_eq!(
        choose_strategy(&fe(CompressionMethod::Deflated, 100, LIMIT_PREFER_IN_MEMORY + 1)),
        ExtractStrategy::StreamDeflate
    );
    assert_eq!(
        choose_strategy(&fe(CompressionMethod::Bzip2, 100, LIMIT_PREFER_IN_MEMORY + 1)),
        ExtractStrategy::StreamBzip2
    );
    assert_eq!(
        choose_strategy(&fe(CompressionMethod::Deflated, 100, 100)),
        ExtractStrategy::Fallback
    );
    assert_eq!(
        choose_strategy(&fe(CompressionMethod::Other(99), LIMIT_ALLOW_IN_MEMORY, 10)),
        ExtractStrategy::TooLarge
    );
    assert_eq!(
        choose_strategy(&fe(CompressionMethod::Other(99), 10, LIMIT_ALLOW_IN_MEMORY)),
        ExtractStrategy::TooLarge
    );
    assert_eq!(
        choose_strategy(&fe(CompressionMethod::Other(99), 10, 10)),
        ExtractStrategy::Fallback
    );
}

#[test]
fn round_trip_reproduces_bytes_for_every_strategy() {
    let small_stored = patterned(100);
    let large_stored = patterned(9000);
    let large_deflate = patterned(50000);
    let large_bzip2 = patterned(60000);
    let small_deflate = patterned(500);
    let bytes = build_archive(&[
        ("a/small_stored", &small_stored, zip::CompressionMethod::Stored),
        ("a/large_stored", &large_stored, zip::CompressionMethod::Stored),
        ("b/large_deflate", &large_deflate, zip::CompressionMethod::Deflated),
        ("b/large_bzip2", &large_bzip2, zip::CompressionMethod::Bzip2),
        ("b/small_deflate", &small_deflate, zip::CompressionMethod::Deflated),
    ]);
    let z = ZipReadOnly::new_strict(bytes).unwrap();
    let cases: Vec<(&[u8], &Vec<u8>)> = vec![
        (b"a/small_stored", &small_stored),
        (b"a/large_stored", &large_stored),
        (b"b/large_deflate", &large_deflate),
        (b"b/large_bzip2", &large_bzip2),
        (b"b/small_deflate", &small_deflate),
    ];
    for (name, want) in cases {
        let mut h = z.open_file(&name.to_vec()).unwrap();
        let got = read_all(&mut h, want.len());
        assert_eq!(&got, want.as_slice(), "entry {:?}", String::from_utf8_lossy(name));
    }
}

#[test]
fn streamed_reads_come_in_chunks_in_order() {
    let data = patterned(40000);
    let bytes = build_archive(&[("big", &data, zip::CompressionMethod::Deflated)]);
    let z = ZipReadOnly::new_strict(bytes).unwrap();
    let mut h = z.open_file(&b"big".to_vec()).unwrap();
    assert!(matches!(h, ZipFileReader::Stream(_)));
    let mut got = Vec::new();
    loop {
        let chunk = h.read(777).unwrap();
        if chunk.is_empty() {
            break;
        }
        got.extend_from_slice(&chunk);
    }
    assert_eq!(got, data);
}

#[test]
fn compressed_streams_cannot_seek() {
    let data = patterned(30000);
    let bytes = build_archive(&[("big", &data, zip::CompressionMethod::Deflated)]);
    let z = ZipReadOnly::new_strict(bytes).unwrap();
    let mut h = z.open_file(&b"big".to_vec()).unwrap();
    assert!(h.seek(SeekFrom::Start(0)).is_err());
    assert!(h.seek(SeekFrom::End(0)).is_err());
}

#[test]
fn stored_handles_seek_with_bounds_checks() {
    let data = patterned(5000);
    let bytes = build_archive(&[("big", &data, zip::CompressionMethod::Stored)]);
    let z = ZipReadOnly::new_strict(bytes).unwrap();
    let mut h = z.open_file(&b"big".to_vec()).unwrap();

    assert_eq!(h.seek(SeekFrom::Start(4000)).unwrap(), 4000);
    assert_eq!(h.read(100).unwrap(), data[4000..4100].to_vec());

    assert_eq!(h.seek(SeekFrom::End(-100)).unwrap(), 4900);
    assert_eq!(h.read(200).unwrap(), data[4900..5000].to_vec());

    assert_eq!(h.seek(SeekFrom::Start(10)).unwrap(), 10);
    assert_eq!(h.seek(SeekFrom::Current(20)).unwrap(), 30);
    assert_eq!(h.seek(SeekFrom::Current(-30)).unwrap(), 0);

    assert!(h.seek(SeekFrom::Start(5001)).is_err());
    assert!(h.seek(SeekFrom::End(1)).is_err());
    assert!(h.seek(SeekFrom::Current(-1)).is_err());
}

#[test]
fn indexing_twice_yields_identical_observations() {
    let bytes = build_archive(&[
        ("docs/a.txt", b"alpha" as &[u8], zip::CompressionMethod::Stored),
        ("docs/b.txt", b"beta", zip::CompressionMethod::Deflated),
        ("top", b"gamma", zip::CompressionMethod::Stored),
    ]);
    let z1 = ZipReadOnly::new_strict(bytes.clone()).unwrap();
    let z2 = ZipReadOnly::new_strict(bytes).unwrap();
    for p in [b"".to_vec(), b"docs".to_vec()] {
        assert_eq!(z1.read_dir(&p).unwrap(), z2.read_dir(&p).unwrap());
    }
    for p in [b"docs/a.txt".to_vec(), b"docs/b.txt".to_vec(), b"top".to_vec(), b"docs".to_vec()]
    {
        assert_eq!(z1.metadata(&p).unwrap(), z2.metadata(&p).unwrap());
        assert_eq!(z1.path_exists(&p), z2.path_exists(&p));
    }
}

#[test]
fn archive_side_rejection_follows_the_policy_flag() {
    let entry = |name: &[u8]| RawEntry {
        name: name.to_vec(),
        is_file: true,
        is_dir: false,
        header_offset: 0,
        data_start: 0,
        compressed: 0,
        uncompressed: 0,
        method: CompressionMethod::Stored,
    };
    let bad_names: Vec<&[u8]> = vec![b"a\\b", b"a//b", b"/abs/path"];
    for bad in &bad_names {
        let entries = vec![Ok(entry(bad)), Ok(entry(b"good"))];
        let strict = ZipReadOnly::from_entry_list(
            SeeklessBlob::new(Vec::new()),
            0,
            entries,
            false,
        );
        assert!(strict.is_err(), "strict must refuse {:?}", String::from_utf8_lossy(bad));
    }
    for bad in &bad_names {
        let entries = vec![Ok(entry(bad)), Ok(entry(b"good"))];
        let relaxed = ZipReadOnly::from_entry_list(
            SeeklessBlob::new(Vec::new()),
            0,
            entries,
            true,
        ).unwrap();
        assert!(!relaxed.path_exists(&bad.to_vec()));
        assert!(relaxed.path_exists(&b"good".to_vec()));
    }
}

#[test]
fn duplicate_and_conflicting_entries_first_wins() {
    let entry = |name: &[u8], is_file: bool, unc: u64| RawEntry {
        name: name.to_vec(),
        is_file,
        is_dir: !is_file,
        header_offset: 0,
        data_start: 0,
        compressed: unc,
        uncompressed: unc,
        method: CompressionMethod::Stored,
    };
    // The same file twice: the first entry's metadata stays.
    let z = ZipReadOnly::from_entry_list(
        SeeklessBlob::new(vec![0u8; 64]),
        64,
        vec![Ok(entry(b"dup", true, 7)), Ok(entry(b"dup", true, 9))],
        false,
    ).unwrap();
    assert_eq!(z.metadata(&b"dup".to_vec()).unwrap().len, 7);

    // A path claimed as file first stays a file when a directory entry
    // follows, and the reverse holds too.
    let z2 = ZipReadOnly::from_entry_list(
        SeeklessBlob::new(vec![0u8; 64]),
        64,
        vec![Ok(entry(b"p", true, 3)), Ok(entry(b"p", false, 0))],
        false,
    ).unwrap();
    assert_eq!(z2.metadata(&b"p".to_vec()).unwrap().file_type, VfsFileType::File);

    let z3 = ZipReadOnly::from_entry_list(
        SeeklessBlob::new(vec![0u8; 64]),
        64,
        vec![Ok(entry(b"q", false, 0)), Ok(entry(b"q", true, 3))],
        false,
    ).unwrap();
    assert_eq!(z3.metadata(&b"q".to_vec()).unwrap().file_type, VfsFileType::Directory);
}

#[test]
fn explicit_directory_entries_are_indexed_too() {
    let mut w = zip::write::ZipWriter::new(std::io::Cursor::new(Vec::new()));
    let opts = zip::write::SimpleFileOptions::default();
    w.add_directory("empty_dir".to_string(), opts).unwrap();
    w.add_directory("sub".to_string(), opts).unwrap();
    w.start_file("sub/x.txt".to_string(), opts).unwrap();
    std::io::Write::write_all(&mut w, b"payload").unwrap();
    let bytes = w.finish().unwrap().into_inner();

    let z = ZipReadOnly::new_strict(bytes).unwrap();
    assert_eq!(z.read_dir(&b"empty_dir".to_vec()).unwrap(), Vec::<Vec<u8>>::new());
    assert_eq!(z.read_dir(&b"sub".to_vec()).unwrap(), vec![b"x.txt".to_vec()]);
    let mut top = z.read_dir(&b"".to_vec()).unwrap();
    top.sort();
    assert_eq!(top, vec![b"empty_dir".to_vec(), b"sub".to_vec()]);
    assert_eq!(
        z.metadata(&b"empty_dir".to_vec()).unwrap().file_type,
        VfsFileType::Directory
    );
}

#[test]
fn mutating_operations_are_not_supported() {
    let bytes = build_archive(&[("x", b"1" as &[u8], zip::CompressionMethod::Stored)]);
    let z = ZipReadOnly::new_strict(bytes).unwrap();
    let p = b"x".to_vec();
    assert!(matches!(z.create_dir(&p), Err(VfsError::NotSupported)));
    assert!(matches!(z.create_file(&p), Err(VfsError::NotSupported)));
    assert!(matches!(z.append_file(&p), Err(VfsError::NotSupported)));
    assert!(matches!(z.remove_file(&p), Err(VfsError::NotSupported)));
    assert!(matches!(z.remove_dir(&p), Err(VfsError::NotSupported)));
    assert!(matches!(z.copy_file(&p, &p), Err(VfsError::NotSupported)));
    assert!(matches!(z.move_file(&p, &p), Err(VfsError::NotSupported)));
    assert!(matches!(z.move_dir(&p, &p), Err(VfsError::NotSupported)));
}
