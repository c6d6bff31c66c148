use ibdl::archive::split_ibdl;
use ibdl::layout::{FILE_TABLE_ENTRY_SIZE, FILE_TABLE_START, OFFSET_TABLE_START};
use ibdl::package::{split_ipkg, Package, PackageOutcome};
use ibdl::table::{read_offset_table, OffsetTableEntry};
use ibdl::ExtractError;

fn put_u64(buf: &mut Vec<u8>, at: usize, v: u64) {
    buf[at..at + 8].copy_from_slice(&v.to_le_bytes());
}

fn put_name(buf: &mut Vec<u8>, at: usize, name: &str) {
    buf[at..at + name.len()].copy_from_slice(name.as_bytes());
    buf[at + name.len()] = 0;
}

/// A package: magic, name, a table of one record per file, then the files'
/// bytes back to back right after the table.
fn package(name: &str, files: &[(&str, &[u8])]) -> Vec<u8> {
    let table_end = FILE_TABLE_START as usize + FILE_TABLE_ENTRY_SIZE as usize * files.len();
    let total = table_end + files.iter().map(|f| f.1.len()).sum::<usize>();
    let mut p = vec![0u8; total];
    p[0..4].copy_from_slice(b"ipkg");
    put_name(&mut p, 0x220, name);
    let mut data_at = table_end;
    for (i, (fname, bytes)) in files.iter().enumerate() {
        let rec = FILE_TABLE_START as usize + FILE_TABLE_ENTRY_SIZE as usize * i;
        put_name(&mut p, rec, fname);
        put_u64(&mut p, rec + 0x100, data_at as u64);
        put_u64(&mut p, rec + 0x108, bytes.len() as u64);
        p[rec + 0x110..rec + 0x114].copy_from_slice(&0xdeadbeefu32.to_le_bytes());
        p[data_at..data_at + bytes.len()].copy_from_slice(bytes);
        data_at += bytes.len();
    }
    p
}

/// An archive whose outer table points at each of `blocks`, in order.
fn archive(blocks: &[Vec<u8>]) -> Vec<u8> {
    let table = OFFSET_TABLE_START as usize;
    let mut a = vec![0u8; table + 16 * blocks.len()];
    a[0..4].copy_from_slice(b"ibdl");
    for (i, b) in blocks.iter().enumerate() {
        let start = a.len() as u64;
        put_u64(&mut a, table + 16 * i, start);
        put_u64(&mut a, table + 16 * i + 8, b.len() as u64);
        a.extend_from_slice(b);
    }
    a
}

fn walked(o: &PackageOutcome) -> (&Package, Option<ExtractError>) {
    match o {
        PackageOutcome::Walked(p, e) => (p, *e),
        other => panic!("expected a walked package, got {:?}", other),
    }
}

#[test]
fn concrete_scenario_demo_hello() {
    let mut a = vec![0u8; 0x949 + 0x43d + 0x114];
    a[0..4].copy_from_slice(b"ibdl");
    put_u64(&mut a, 0x929, 0x949);
    put_u64(&mut a, 0x931, 0x10);
    a[0x949..0x94d].copy_from_slice(b"ipkg");
    put_name(&mut a, 0x949 + 0x220, "demo");
    let rec = 0x949 + 0x43d;
    put_name(&mut a, rec, "a.txt");
    put_u64(&mut a, rec + 0x100, 0x14);
    put_u64(&mut a, rec + 0x108, 5);
    a[0x949 + 0x14..0x949 + 0x19].copy_from_slice(b"hello");

    let scan = split_ibdl(&a);
    let (p, err) = walked(&scan.outcomes[0]);
    assert_eq!(p.dir_name(), "demo.ipk");
    assert_eq!(p.files.len(), 1);
    assert_eq!(p.files[0].entry.name, "a.txt");
    assert_eq!(p.files[0].contents, b"hello".to_vec());
    // The record's offset lies before the file table, so the table's span
    // cannot be derived from it: the walk stops after this file.
    assert_eq!(err, Some(ExtractError::CorruptFileTable));
    assert_eq!(scan.error, Some(ExtractError::CorruptFileTable));
}

#[test]
fn well_formed_archive_extracts_every_file() {
    let one: &[(&str, &[u8])] = &[("x.bin", b"0123456789"), ("y.txt", b""), ("z", b"zz")];
    let two: &[(&str, &[u8])] = &[("only", b"abc")];
    let a = archive(&[package("first", one), package("second", two)]);
    let scan = split_ibdl(&a);
    assert_eq!(scan.error, None);
    assert_eq!(scan.outcomes.len(), 2);
    for (o, expected, name) in [(&scan.outcomes[0], one, "first"), (&scan.outcomes[1], two, "second")] {
        let (p, err) = walked(o);
        assert_eq!(err, None);
        assert_eq!(p.name, name);
        assert_eq!(p.files.len(), expected.len());
        for (f, (fname, bytes)) in p.files.iter().zip(expected.iter()) {
            assert_eq!(f.entry.name, *fname);
            assert_eq!(f.entry.size as usize, bytes.len());
            assert_eq!(f.contents.len() as u64, f.entry.size);
            assert_eq!(f.contents, bytes.to_vec());
            assert_eq!(f.entry.trailing, 0xdeadbeef);
        }
    }
}

#[test]
fn extracted_bytes_match_source_range() {
    let files: &[(&str, &[u8])] = &[("a", b"first file"), ("b", b"second")];
    let a = archive(&[package("pkg", files)]);
    let start = OFFSET_TABLE_START as usize + 16;
    let (p, _) = match split_ipkg(&a, start as u64) {
        PackageOutcome::Walked(p, e) => (p, e),
        other => panic!("{:?}", other),
    };
    for f in &p.files {
        let from = start + f.entry.offset as usize;
        assert_eq!(f.contents[..], a[from..from + f.entry.size as usize]);
    }
}

#[test]
fn extraction_twice_gives_identical_output() {
    let files: &[(&str, &[u8])] = &[("a", b"same"), ("b", b"bytes")];
    let a = archive(&[package("p", files), vec![0u8; 8], package("q", files)]);
    let first = split_ibdl(&a);
    let second = split_ibdl(&a);
    assert_eq!(format!("{:?}", first), format!("{:?}", second));
    assert_eq!(first.outcomes.len(), 3);
}

#[test]
fn single_file_package_yields_one_entry() {
    let files: &[(&str, &[u8])] = &[("lone", b"data")];
    let p = package("single", files);
    let first_offset = u64::from_le_bytes(p[0x43d + 0x100..0x43d + 0x108].try_into().unwrap());
    assert_eq!((first_offset - FILE_TABLE_START) / FILE_TABLE_ENTRY_SIZE, 1);
    let a = archive(&[p]);
    let scan = split_ibdl(&a);
    let (pkg, err) = walked(&scan.outcomes[0]);
    assert_eq!(err, None);
    assert_eq!(pkg.files.len(), 1);
    assert_eq!(pkg.files[0].contents, b"data".to_vec());
}

#[test]
fn non_package_entry_is_skipped_and_walk_goes_on() {
    let files: &[(&str, &[u8])] = &[("f", b"kept")];
    let mut junk = vec![0u8; 16];
    junk[0..4].copy_from_slice(b"nope");
    let a = archive(&[junk, package("after", files)]);
    let scan = split_ibdl(&a);
    assert_eq!(scan.error, None);
    assert_eq!(scan.outcomes.len(), 2);
    assert!(matches!(scan.outcomes[0], PackageOutcome::NotAPackage));
    let (p, err) = walked(&scan.outcomes[1]);
    assert_eq!(err, None);
    assert_eq!(p.files[0].contents, b"kept".to_vec());
}

#[test]
fn bad_outer_magic_is_a_hard_failure() {
    let files: &[(&str, &[u8])] = &[("f", b"x")];
    let mut a = archive(&[package("p", files)]);
    a[0..4].copy_from_slice(b"IBDL");
    let scan = split_ibdl(&a);
    assert!(scan.outcomes.is_empty());
    assert_eq!(scan.error, Some(ExtractError::InvalidMagic));
    assert_eq!(read_offset_table(b"ib").unwrap_err(), ExtractError::InvalidMagic);
}

#[test]
fn outer_table_entries_are_read_in_order() {
    let a = archive(&[vec![1u8; 3], vec![2u8; 5], vec![3u8; 7]]);
    let t = read_offset_table(&a).unwrap();
    let base = OFFSET_TABLE_START + 48;
    assert_eq!(
        t,
        vec![
            OffsetTableEntry { start: base, size: 3 },
            OffsetTableEntry { start: base + 3, size: 5 },
            OffsetTableEntry { start: base + 8, size: 7 },
        ]
    );
}

#[test]
fn first_entry_inside_table_is_corrupt() {
    let mut a = vec![0u8; 0x1000];
    a[0..4].copy_from_slice(b"ibdl");
    put_u64(&mut a, 0x929, 0x929);
    assert_eq!(read_offset_table(&a).unwrap_err(), ExtractError::CorruptOffsetTable);
    put_u64(&mut a, 0x929, 0x100);
    assert_eq!(read_offset_table(&a).unwrap_err(), ExtractError::CorruptOffsetTable);
    put_u64(&mut a, 0x929, 0x939);
    assert_eq!(read_offset_table(&a).unwrap(), vec![OffsetTableEntry { start: 0x939, size: 0 }]);
}

#[test]
fn short_outer_table_is_truncated() {
    let mut a = vec![0u8; 0x930];
    a[0..4].copy_from_slice(b"ibdl");
    assert_eq!(read_offset_table(&a).unwrap_err(), ExtractError::TruncatedInput);
    let mut b = vec![0u8; 0x939];
    b[0..4].copy_from_slice(b"ibdl");
    put_u64(&mut b, 0x929, 0x929 + 16 * 4);
    assert_eq!(read_offset_table(&b).unwrap_err(), ExtractError::TruncatedInput);
    assert_eq!(split_ibdl(&b).error, Some(ExtractError::TruncatedInput));
}

#[test]
fn package_name_without_nul_is_malformed() {
    let files: &[(&str, &[u8])] = &[("f", b"x")];
    let mut p = package("p", files);
    for b in &mut p[0x220..0x320] {
        *b = b'n';
    }
    let scan = split_ibdl(&archive(&[p]));
    assert!(matches!(scan.outcomes[0], PackageOutcome::Failed(ExtractError::MalformedString)));
    assert_eq!(scan.error, Some(ExtractError::MalformedString));
}

#[test]
fn file_data_past_end_is_truncated_and_earlier_files_kept() {
    let files: &[(&str, &[u8])] = &[("a", b"aaaa"), ("b", b"bbbb")];
    let mut p = package("p", files);
    let rec = 0x43d + 0x114;
    put_u64(&mut p, rec + 0x108, 1_000_000);
    let a = archive(&[p, package("later", files)]);
    let scan = split_ibdl(&a);
    assert_eq!(scan.outcomes.len(), 1);
    let (pkg, err) = walked(&scan.outcomes[0]);
    assert_eq!(err, Some(ExtractError::TruncatedInput));
    assert_eq!(pkg.files.len(), 1);
    assert_eq!(pkg.files[0].contents, b"aaaa".to_vec());
    assert_eq!(scan.error, Some(ExtractError::TruncatedInput));
}

#[test]
fn package_past_end_of_input_is_truncated() {
    let a = vec![0u8; 4];
    assert!(matches!(split_ipkg(&a, 2), PackageOutcome::Failed(ExtractError::TruncatedInput)));
    assert!(matches!(split_ipkg(&a, u64::MAX), PackageOutcome::Failed(ExtractError::TruncatedInput)));
}
