use rattler_wheel::digest::StreamDigest;
use rattler_wheel::error::{
    ExtractError, InstallError, IoError, IoErrorKind, LocalPackageRecordError, WheelInstallError,
};
use rattler_wheel::install::{
    describe_archive, fetch_outcome, file_source, install_outcome, install_wheel,
    local_archive_type, repodata_record_from_package_archive, wheel_source, wheel_validator,
    ArchiveIdentifier, DistArchiveIdentifier, DistArchiveType, Link, RepoDataRecord, WheelSource,
};
use rattler_wheel::link::{
    synthetic_index_json, NoArchType, PackageName, PackageRecord, PathText,
};
use rattler_wheel::package::CondaArchiveType;

fn package(name: &str) -> PackageRecord<&'static str> {
    PackageRecord {
        name: PackageName { source: name.to_string(), normalized: name.to_lowercase() },
        version: "1.0".to_string(),
        build: "py3_none_any_0".to_string(),
        build_number: 0,
        noarch: NoArchType::OnePlatform,
        subdir: "linux-64".to_string(),
        md5: Some([7; 16]),
        sha256: None,
        size: None,
        rest: "depends: python",
    }
}

fn read(bytes: &[u8]) -> StreamDigest {
    StreamDigest::new().update(bytes)
}

fn wheel_record(url: &str) -> RepoDataRecord<&'static str> {
    RepoDataRecord {
        package_record: package("demo"),
        identifier: DistArchiveIdentifier {
            identifier: ArchiveIdentifier {
                name: "demo".to_string(),
                version: "1.0".to_string(),
                build_string: "py3_none_any_0".to_string(),
            },
            archive_type: DistArchiveType::Wheel,
        },
        url: url.to_string(),
        channel: None,
    }
}

#[test]
fn file_urls_are_read_from_disk() {
    assert_eq!(
        wheel_source("file:///tmp/a%20b/demo.whl"),
        Ok(WheelSource::File(b"/tmp/a b/demo.whl".to_vec()))
    );
    assert_eq!(
        wheel_source("FILE:///x"),
        Ok(WheelSource::File(b"/x".to_vec()))
    );
}

#[test]
fn other_urls_are_downloaded() {
    let url = "https://example.com/demo-1.0-py3-none-any.whl";
    assert_eq!(wheel_source(url), Ok(WheelSource::Remote(url.to_string())));
}

#[test]
fn a_file_url_with_a_host_has_no_path() {
    assert_eq!(
        wheel_source("file://server/share/demo.whl"),
        Err(WheelInstallError::Io(IoError::new(
            IoErrorKind::InvalidInput,
            "could not convert 'file://server/share/demo.whl' to a file path"
        )))
    );
    assert_eq!(
        file_source("file:///x", Some(b"/x".to_vec())),
        Ok(WheelSource::File(b"/x".to_vec()))
    );
}

#[test]
fn the_kind_of_a_local_package_is_told_by_its_path() {
    assert_eq!(local_archive_type("/a/b.conda"), Ok(CondaArchiveType::Conda));
    assert_eq!(local_archive_type("/a/b.tar.bz2"), Ok(CondaArchiveType::TarBz2));
    assert_eq!(
        local_archive_type("/a/b.whl"),
        Err(LocalPackageRecordError::InvalidPath("/a/b.whl".to_string()))
    );
}

#[test]
fn a_local_package_is_identified_by_its_index() {
    let index = synthetic_index_json(&package("Clobber-FD-1"));
    let record = repodata_record_from_package_archive(
        "my-renamed-package.conda",
        CondaArchiveType::Conda,
        &index,
        Ok(package("Clobber-FD-1")),
        read(b"abc"),
        "/tmp/my renamed-package.conda",
    )
    .unwrap();
    assert_eq!(record.url, "file:///tmp/my%20renamed-package.conda");
    assert_eq!(record.channel, None);
    assert_eq!(record.identifier.identifier.name, "Clobber-FD-1");
    assert_eq!(record.identifier.identifier.version, "1.0");
    assert_eq!(record.identifier.identifier.build_string, "py3_none_any_0");
    assert_eq!(
        record.identifier.archive_type,
        DistArchiveType::Conda(CondaArchiveType::Conda)
    );
    let described = &record.package_record;
    assert_eq!(described.size, Some(3));
    assert_eq!(
        hex::encode(described.sha256.unwrap()),
        "ba7816bf8f01cfea414140de5dae2223b00361a396177a9cb410ff61f20015ad"
    );
    assert_eq!(described.md5, None);
    assert_eq!(
        *described,
        PackageRecord {
            md5: None,
            sha256: described.sha256,
            size: Some(3),
            ..package("Clobber-FD-1")
        }
    );
    // It is read from disk again when it is installed.
    assert_eq!(
        wheel_source(&record.url),
        Ok(WheelSource::File(b"/tmp/my renamed-package.conda".to_vec()))
    );
}

#[test]
fn a_relative_path_makes_no_url() {
    assert_eq!(
        repodata_record_from_package_archive(
            "a.conda",
            CondaArchiveType::Conda,
            &synthetic_index_json(&package("a")),
            Ok(package("a")),
            read(b""),
            "a.conda",
        ),
        Err(LocalPackageRecordError::InvalidPath("a.conda".to_string()))
    );
}

#[test]
fn an_index_that_makes_no_record_is_a_failure() {
    assert_eq!(
        repodata_record_from_package_archive::<u8>(
            "a.conda",
            CondaArchiveType::Conda,
            &synthetic_index_json(&package("a")),
            Err("no subdir".to_string()),
            read(b"abc"),
            "/a.conda",
        ),
        Err(LocalPackageRecordError::Convert("no subdir".to_string()))
    );
}

#[test]
fn a_description_has_the_url_that_it_is_given() {
    let describe = |url: Option<String>| {
        describe_archive(
            "b.tar.bz2",
            CondaArchiveType::TarBz2,
            &synthetic_index_json(&package("b")),
            Ok(package("b")),
            read(b"abcd"),
            url,
        )
    };
    let record = describe(Some("file:///%FF/b.tar.bz2".to_string())).unwrap();
    assert_eq!(record.url, "file:///%FF/b.tar.bz2");
    assert_eq!(record.package_record.size, Some(4));
    assert_eq!(
        describe(None),
        Err(LocalPackageRecordError::InvalidPath("b.tar.bz2".to_string()))
    );
}

#[test]
fn a_validated_wheel_leaves_nothing_to_keep() {
    assert_eq!(wheel_validator::<String>(Ok(())), Ok((None, None)));
    assert_eq!(
        wheel_validator(Err("demo.py has another hash".to_string())),
        Err("demo.py has another hash".to_string())
    );
}

#[test]
fn a_failed_fetch_names_the_wheel() {
    let url = "https://example.com/x.whl";
    assert_eq!(fetch_outcome(url, Ok("/cache/x")), Ok("/cache/x"));
    assert_eq!(
        fetch_outcome::<u8>(url, Err("hash mismatch".to_string())),
        Err(WheelInstallError::FailedToFetch(url.to_string(), "hash mismatch".to_string()))
    );
}

#[test]
fn an_installed_wheel_is_recorded_as_it_came() {
    let dir = PathText::Utf8("/cache/demo-1.0-py3_none_any_0".to_string());
    let url = "https://example.com/demo.whl";
    let recorded = install_wheel(
        wheel_record(url),
        &dir,
        Ok((vec!["bin/demo"], "hardlink")),
        vec!["demo".to_string()],
    )
    .unwrap();
    assert_eq!(recorded.repodata_record, wheel_record(url));
    assert_eq!(recorded.repodata_record.package_record.subdir, "linux-64");
    assert_eq!(
        recorded.repodata_record.package_record.noarch,
        NoArchType::OnePlatform
    );
    assert_eq!(recorded.extracted_package_dir, Some(dir.clone()));
    assert_eq!(
        recorded.link,
        Some(Link { source: dir, link_type: Some("hardlink") })
    );
    assert_eq!(recorded.requested_specs, ["demo"]);
    assert_eq!(recorded.paths, ["bin/demo"]);
}

#[test]
fn a_wheel_that_was_not_linked_is_not_recorded() {
    let failure = || WheelInstallError::Install(InstallError::LinkFailed("no space".to_string()));
    let dir = PathText::NotUtf8(vec![0xff]);
    let recorded = install_wheel::<u8, u8, _>(wheel_record("x:y"), &dir, Err(failure()), Vec::new());
    assert_eq!(recorded, Err(failure()));
}

#[test]
fn an_installation_that_never_reports_back_was_cancelled() {
    assert_eq!(
        install_outcome(None),
        Err(WheelInstallError::Install(InstallError::Cancelled))
    );
    assert_eq!(install_outcome(Some(Ok(()))), Ok(()));
    let failure = || {
        WheelInstallError::FailedToFetch("https://example.com/x.whl".to_string(), "404".to_string())
    };
    assert_eq!(install_outcome(Some(Err(failure()))), Err(failure()));
}

#[test]
fn errors_are_taken_over() {
    let io = || IoError::new(IoErrorKind::Other, "x");
    assert_eq!(WheelInstallError::from(io()), WheelInstallError::Io(io()));
    assert_eq!(
        WheelInstallError::from(InstallError::Cancelled),
        WheelInstallError::Install(InstallError::Cancelled)
    );
    assert_eq!(
        LocalPackageRecordError::from(io()),
        LocalPackageRecordError::Io(io())
    );
    assert_eq!(
        LocalPackageRecordError::from(ExtractError::MissingComponent),
        LocalPackageRecordError::Extract(ExtractError::MissingComponent)
    );
}
