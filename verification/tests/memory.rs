use std::io::{Cursor, Write};

use rattler_wheel::error::{ExtractError, IoError, IoErrorKind, ZipError};
use rattler_wheel::extraction::{EntryAction, Layout};
use rattler_wheel::memory::{
    extract_wheel, extract_wheel_contents, read_error, stream_conda_content, stream_conda_info,
    WheelEntry,
};

fn options() -> zip::write::SimpleFileOptions {
    zip::write::SimpleFileOptions::default()
}

fn stored() -> zip::write::SimpleFileOptions {
    options().compression_method(zip::CompressionMethod::Stored)
}

fn archive(files: &[(&str, &[u8], zip::write::SimpleFileOptions)]) -> Vec<u8> {
    let mut zip = zip::ZipWriter::new(Cursor::new(Vec::new()));
    for (name, contents, options) in files {
        zip.start_file(*name, *options).unwrap();
        zip.write_all(contents).unwrap();
    }
    zip.finish().unwrap().into_inner()
}

fn build_test_wheel() -> Vec<u8> {
    archive(&[
        ("demo.py", b"print('hello')\n", options()),
        (
            "demo-1.0.dist-info/RECORD",
            b"demo.py,sha256=,16\ndemo-1.0.dist-info/RECORD,,\n",
            options(),
        ),
        (
            "demo-1.0.dist-info/entry_points.txt",
            b"[console_scripts]\ndemo-cli = demo:main\n",
            options(),
        ),
        ("demo-1.0.data/scripts/demo-script", b"#!/bin/sh\necho hi\n", options()),
        (
            "demo-1.0.data/platlib/_demo_native.so",
            b"not-really-a-shared-library",
            options(),
        ),
    ])
}

fn written(entries: &[WheelEntry]) -> Vec<&str> {
    entries
        .iter()
        .filter_map(|entry| match &entry.action {
            EntryAction::WriteFile(path) => Some(path.as_str()),
            _ => None,
        })
        .collect()
}

#[test]
fn test_extract_wheel_remaps_paths() {
    let wheel = build_test_wheel();
    let (result, entries) = extract_wheel(&wheel).unwrap();
    assert!(result.total_size > 0);

    let written = written(&entries);

    // Root-level files land under `site-packages/`.
    assert!(written.contains(&"site-packages/demo.py"));
    assert!(written.contains(&"site-packages/demo-1.0.dist-info/RECORD"));
    assert!(written.contains(&"site-packages/demo-1.0.dist-info/entry_points.txt"));

    // `.data/scripts/` maps to `python-scripts/`.
    assert!(written.contains(&"python-scripts/demo-script"));

    // `.data/platlib/` (compiled/subdir-specific content) also maps to
    // `site-packages/`.
    assert!(written.contains(&"site-packages/_demo_native.so"));
}

#[test]
fn the_result_of_a_wheel_is_that_of_its_bytes() {
    let wheel = build_test_wheel();
    let (result, entries) = extract_wheel(&wheel).unwrap();
    assert_eq!(result, rattler_wheel::digest::hash_and_size(&wheel));
    assert_eq!(result.total_size, wheel.len() as u64);
    assert_eq!(entries.len(), 5);
}

#[test]
fn a_wheel_can_keep_the_layout_of_its_archive() {
    let wheel = build_test_wheel();
    let entries = extract_wheel_contents(&wheel, Layout::Archive).unwrap();
    assert_eq!(
        written(&entries),
        [
            "demo.py",
            "demo-1.0.dist-info/RECORD",
            "demo-1.0.dist-info/entry_points.txt",
            "demo-1.0.data/scripts/demo-script",
            "demo-1.0.data/platlib/_demo_native.so",
        ]
    );
}

#[test]
fn every_file_gets_its_contents() {
    let deflated = options().compression_method(zip::CompressionMethod::Deflated);
    let wheel = archive(&[
        ("a.py", b"aaaaaaaaaaaaaaaaaaaaaaaaaaaaaaaa", deflated),
        ("b.py", b"", stored()),
        ("../c.py", b"never read", stored()),
    ]);
    let entries = extract_wheel_contents(&wheel, Layout::Archive).unwrap();
    assert_eq!(entries[0].contents, Some(b"aaaaaaaaaaaaaaaaaaaaaaaaaaaaaaaa".to_vec()));
    assert_eq!(entries[1].contents, Some(Vec::new()));
    assert_eq!(entries[2].contents, None);
}

#[test]
fn a_file_that_was_changed_cannot_be_read() {
    let mut wheel = archive(&[("a.py", b"print('hello')", stored())]);
    let place = wheel.windows(5).position(|bytes| bytes == b"hello").unwrap();
    wheel[place] = b'j';
    assert_eq!(
        extract_wheel_contents(&wheel, Layout::Archive),
        Err(ExtractError::IoError(IoError::new(IoErrorKind::InvalidData, "Invalid checksum")))
    );
}

#[test]
fn kinds_are_told_by_their_names() {
    let named = [
        (std::io::ErrorKind::NotFound, IoErrorKind::NotFound),
        (std::io::ErrorKind::InvalidData, IoErrorKind::InvalidData),
        (std::io::ErrorKind::InvalidInput, IoErrorKind::InvalidInput),
        (std::io::ErrorKind::UnexpectedEof, IoErrorKind::UnexpectedEof),
        (std::io::ErrorKind::Other, IoErrorKind::Other),
        (std::io::ErrorKind::TimedOut, IoErrorKind::Other),
    ];
    for (kind, expected) in named {
        assert_eq!(
            read_error(&format!("{kind:?}"), "why".to_string()),
            ExtractError::IoError(IoError::new(expected, "why"))
        );
    }
}

#[test]
fn an_encrypted_wheel_is_not_supported() {
    let mut wheel = archive(&[("a.py", b"print('hello')", stored())]);
    let directory = wheel.windows(4).position(|bytes| bytes == b"PK\x01\x02").unwrap();
    wheel[directory + 8] |= 1;
    let unsupported = || {
        ExtractError::ZipError(ZipError::UnsupportedArchive(
            "Password required to decrypt file".to_string(),
        ))
    };
    assert_eq!(extract_wheel_contents(&wheel, Layout::Archive), Err(unsupported()));
    assert_eq!(extract_wheel(&wheel), Err(unsupported()));
}

#[test]
fn unsafe_names_and_directories_are_passed_over() {
    let mut zip = zip::ZipWriter::new(Cursor::new(Vec::new()));
    zip.start_file("../evil.py", options()).unwrap();
    zip.add_directory("pkg/", options()).unwrap();
    zip.start_file("pkg/../good.py", options().unix_permissions(0o755)).unwrap();
    let wheel = zip.finish().unwrap().into_inner();

    let entries = extract_wheel_contents(&wheel, Layout::Archive).unwrap();
    assert_eq!(entries.len(), 3);
    assert_eq!(entries[0].action, EntryAction::Skip);
    assert_eq!(entries[1].action, EntryAction::Skip);
    assert_eq!(entries[2].action, EntryAction::WriteFile("good.py".to_string()));
    assert_eq!(entries[2].unix_mode.unwrap() & 0o777, 0o755);
}

#[test]
fn what_is_no_zip_archive_cannot_be_extracted() {
    assert!(matches!(
        extract_wheel_contents(b"not a zip archive", Layout::Archive),
        Err(ExtractError::ZipError(ZipError::Other(_)))
    ));
    assert!(matches!(extract_wheel(b""), Err(ExtractError::ZipError(ZipError::Other(_)))));
    assert!(matches!(stream_conda_info(b"PK"), Err(ExtractError::ZipError(ZipError::Other(_)))));
}

#[test]
fn the_parts_of_a_conda_package_are_found() {
    let package = archive(&[
        ("metadata.json", b"{}", stored()),
        ("pkg-demo-1.0-0.tar.zst", b"the contents", stored()),
        ("info-demo-1.0-0.tar.zst", b"the metadata", stored()),
        ("info-other.tar.zst", b"not the first", stored()),
    ]);
    let info = stream_conda_info(&package).unwrap();
    let (from, to) = (info.offset as usize, (info.offset + info.size) as usize);
    assert_eq!(&package[from..to], b"the metadata");

    let content = stream_conda_content(&package).unwrap();
    let (from, to) = (content.offset as usize, (content.offset + content.size) as usize);
    assert_eq!(&package[from..to], b"the contents");
}

#[test]
fn a_conda_package_without_its_parts_is_incomplete() {
    let package = archive(&[("metadata.json", b"{}", stored())]);
    assert_eq!(stream_conda_info(&package), Err(ExtractError::MissingComponent));
    assert_eq!(stream_conda_content(&package), Err(ExtractError::MissingComponent));
}

#[test]
fn a_part_that_is_compressed_again_is_refused() {
    let deflated = options().compression_method(zip::CompressionMethod::Deflated);
    let package = archive(&[("info-demo.tar.zst", b"aaaaaaaaaaaaaaaaaaaaaaaa", deflated)]);
    assert_eq!(
        stream_conda_info(&package),
        Err(ExtractError::UnsupportedCompressionMethod)
    );
}
