use rattler_wheel::error::{ExtractError, IoError, IoErrorKind};
use rattler_wheel::package::{
    extract, extract_package_file, get_file_from_archive, is_extracted_part, read_package_file,
    read_package_file_content, stream_conda_content, stream_conda_info, stream_conda_zip_entry,
    ArchivePart, ByteRange, CondaArchiveType, SearchStep, ZipEntryInfo,
};

fn names(names: &[&str]) -> Vec<String> {
    names.iter().map(|name| name.to_string()).collect()
}

#[test]
fn the_extension_tells_the_kind() {
    assert_eq!(extract("dir/python-3.11.0-0.conda"), Ok(CondaArchiveType::Conda));
    assert_eq!(extract("python-3.11.0-0.tar.bz2"), Ok(CondaArchiveType::TarBz2));
    assert_eq!(extract("demo.whl"), Err(ExtractError::UnsupportedArchiveType));
    assert_eq!(extract(""), Err(ExtractError::UnsupportedArchiveType));
    assert_eq!(CondaArchiveType::try_from("x.tar.gz"), None);
}

#[test]
fn parts_are_found_by_their_names() {
    let listed = names(&["metadata.json", "pkg-a.tar.zst", "info-a.tar", "info-a.tar.zst"]);
    assert_eq!(stream_conda_info(&listed), Ok(3));
    assert_eq!(stream_conda_content(&listed), Ok(1));
    assert_eq!(stream_conda_info(&names(&["x"])), Err(ExtractError::MissingComponent));
    assert_eq!(stream_conda_content(&names(&[])), Err(ExtractError::MissingComponent));
}

#[test]
fn a_part_has_to_be_stored() {
    let mut entry = ZipEntryInfo { stored: true, data_start: 40, size: 7 };
    assert_eq!(stream_conda_zip_entry(entry), Ok(ByteRange { offset: 40, size: 7 }));
    entry.stored = false;
    assert_eq!(
        stream_conda_zip_entry(entry),
        Err(ExtractError::UnsupportedCompressionMethod)
    );
}

#[test]
fn metadata_is_looked_for_where_it_is() {
    let listed = names(&["pkg-a.tar.zst", "info-a.tar.zst"]);
    assert_eq!(
        read_package_file_content(CondaArchiveType::TarBz2, &names(&[])),
        Ok(ArchivePart::Whole)
    );
    assert_eq!(
        read_package_file_content(CondaArchiveType::Conda, &listed),
        Ok(ArchivePart::ZipEntry(1))
    );
    assert_eq!(
        read_package_file_content(CondaArchiveType::Conda, &names(&["pkg-a.tar.zst"])),
        Err(ExtractError::MissingComponent)
    );
}

#[test]
fn the_location_tells_where_metadata_is_looked_for() {
    let listed = names(&["info-a.tar.zst"]);
    assert_eq!(extract_package_file("a.conda", &listed), Ok(ArchivePart::ZipEntry(0)));
    assert_eq!(extract_package_file("a.tar.bz2", &names(&[])), Ok(ArchivePart::Whole));
    assert_eq!(
        extract_package_file("a.conda", &names(&[])),
        Err(ExtractError::MissingComponent)
    );
    assert_eq!(
        extract_package_file("a.zip", &listed),
        Err(ExtractError::UnsupportedArchiveType)
    );
}

#[test]
fn metadata_that_makes_no_sense_is_a_failure() {
    assert_eq!(read_package_file("info/index.json", Ok(7)), Ok(7));
    let cause = IoError::new(IoErrorKind::InvalidData, "expected value");
    assert_eq!(
        read_package_file::<u8>("info/index.json", Err(cause.clone())),
        Err(ExtractError::ArchiveMemberParseError("info/index.json".to_string(), cause))
    );
}

#[test]
fn the_search_ends_at_the_first_match() {
    let step = |next| get_file_from_archive("info/index.json", next);
    assert_eq!(step(Some("info/about.json")), SearchStep::Pass);
    assert_eq!(step(Some("./info/index.json")), SearchStep::Pass);
    assert_eq!(step(Some("info//index.json")), SearchStep::Read);
    assert_eq!(step(None), SearchStep::Missing);
}

#[test]
fn compressed_tar_archives_are_extracted() {
    assert!(is_extracted_part("pkg-a.tar.zst"));
    assert!(is_extracted_part("anything.tar.zst"));
    assert!(!is_extracted_part("metadata.json"));
}
