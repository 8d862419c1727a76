//! What the linker is told of a wheel, and what is recorded of it.
use crate::digest;
use crate::digest::StreamDigest;
use crate::entry_points::EntryPoint;
use crate::error::{
    ExtractError, InstallError, IoError, IoErrorKind, LocalPackageRecordError, WheelInstallError,
};
use crate::install;
use crate::install::{DistArchiveType, PrefixRecord, RepoDataRecord, WheelSource};
use crate::link;
use crate::link::{
    IndexJson, InstallOptions, LinkPlan, NoArchLinks, NoArchType, PackageRecord, PathText, PathType,
    PathsEntry, PathsJson,
};
use crate::package::CondaArchiveType;
use crate::record;
use crate::record::{WheelRecord, WheelRecordEntry};
use crate::shebang;
use vstd::prelude::*;
use vstd::string::*;

verus! {

/// A wheel is linked if its record and its entry points could be read. What is
/// wrong with the record comes before what is wrong with the entry points.
pub proof fn law_what_keeps_a_wheel_from_being_linked<X>(
    wheel_record: Result<WheelRecord, IoError>,
    entry_points: Result<Vec<EntryPoint>, WheelInstallError>,
    package_record: &PackageRecord<X>,
    target_dir: &PathText,
    current_is_unix: bool,
    options: InstallOptions,
    plan: Result<LinkPlan, WheelInstallError>,
)
    requires
        call_ensures(
            link::link_wheel_sync::<X>,
            (wheel_record, entry_points, package_record, target_dir, current_is_unix, options),
            plan,
        ),
    ensures
        plan is Ok <==> wheel_record is Ok && entry_points is Ok,
        match wheel_record {
            Err(cause) => plan matches Err(WheelInstallError::FailedToReadRecord(e)) && e == cause,
            Ok(_) => match entry_points {
                Err(cause) => plan matches Err(e) && e == cause,
                Ok(_) => true,
            },
        },
{
}

/// Whether a file is linked as it is listed: from the path it has in the
/// archive, as a hard link, with the digest and the size that are listed.
pub open spec fn is_linked_as_listed(path: PathsEntry, entry: WheelRecordEntry) -> bool {
    &&& path.relative_path@ == entry.archive_path@
    &&& path.path_type == PathType::HardLink
    &&& !path.no_link
    &&& path.prefix_placeholder is None
    &&& path.size_in_bytes == entry.size
    &&& match (path.sha256, entry.sha256) {
        (Some(linked), Some(listed)) => linked@ == listed@,
        (None, None) => true,
        _ => false,
    }
}

/// The manifest has every listed file in its place in the list, and no other.
pub proof fn law_linked_paths(wheel_record: &WheelRecord, paths: PathsJson)
    requires
        call_ensures(link::synthetic_paths_json, (wheel_record,), paths),
    ensures
        paths.paths_version == 1,
        paths.paths@.len() == wheel_record.entries@.len(),
        forall|i: int|
            0 <= i < paths.paths@.len() ==> is_linked_as_listed(
                #[trigger] paths.paths@[i],
                wheel_record.entries@[i],
            ),
{
    assert forall|i: int| 0 <= i < paths.paths@.len() implies is_linked_as_listed(
        #[trigger] paths.paths@[i],
        wheel_record.entries@[i],
    ) by {
        assert(link::is_linked_entry(paths.paths@[i], wheel_record@[i]));
        assert(wheel_record@[i] == wheel_record.entries@[i]@);
    }
}

/// Every listed file is linked, in its place in the list, from the path it has
/// in the archive and with the digest and the size that are listed, and nothing
/// else is linked. What the environment is like is not touched.
pub proof fn law_every_listed_file_is_linked<X>(
    wheel_record: WheelRecord,
    entry_points: Vec<EntryPoint>,
    package_record: &PackageRecord<X>,
    target_dir: &PathText,
    current_is_unix: bool,
    options: InstallOptions,
    plan: Result<LinkPlan, WheelInstallError>,
)
    requires
        call_ensures(
            link::link_wheel_sync::<X>,
            (
                Ok(wheel_record),
                Ok(entry_points),
                package_record,
                target_dir,
                current_is_unix,
                options,
            ),
            plan,
        ),
    ensures
        plan matches Ok(p) && p.options.is_wheel && p.options.has_python == options.has_python
            && p.options.target_prefix == options.target_prefix && p.options.platform_is_unix
            == options.platform_is_unix && (p.options.paths_json matches Some(paths)
            && paths.paths_version == 1 && paths.paths@.len() == wheel_record.entries@.len()
            && forall|i: int|
            0 <= i < paths.paths@.len() ==> is_linked_as_listed(
                #[trigger] paths.paths@[i],
                wheel_record.entries@[i],
            )),
{
    let p = plan->Ok_0;
    let paths = p.options.paths_json->Some_0;
    assert forall|i: int| 0 <= i < paths.paths@.len() implies is_linked_as_listed(
        #[trigger] paths.paths@[i],
        wheel_record.entries@[i],
    ) by {
        assert(link::is_linked_entry(paths.paths@[i], wheel_record@[i]));
        assert(wheel_record@[i] == wheel_record.entries@[i]@);
    }
}

/// An index that says nothing but what package it is of, and how that is linked.
pub open spec fn says_nothing_else(index: IndexJson) -> bool {
    &&& index.constrains@.len() == 0
    &&& index.depends@.len() == 0
    &&& index.extra_depends@.len() == 0
    &&& index.flags@.len() == 0
    &&& index.track_features@.len() == 0
    &&& index.arch is None
    &&& index.features is None
    &&& index.license is None
    &&& index.license_family is None
    &&& index.platform is None
    &&& index.purls is None
    &&& index.python_site_packages_path is None
    &&& index.repodata_revision is None
    &&& index.subdir is None
    &&& index.timestamp is None
}

/// A wheel is linked under the name, the version and the build of its package,
/// as Python code for any platform, whatever platform the package is for; the
/// index says nothing else.
pub proof fn law_linked_index<X>(package_record: &PackageRecord<X>, index: IndexJson)
    requires
        call_ensures(link::synthetic_index_json::<X>, (package_record,), index),
    ensures
        index.name.source@ == package_record.name.source@,
        index.name.normalized@ == package_record.name.normalized@,
        index.version@ == package_record.version@,
        index.build@ == package_record.build@,
        index.build_number == package_record.build_number,
        index.noarch == NoArchType::Python,
        says_nothing_else(index),
{
}

/// The linker gets that index, and the scripts that the wheel declares, all of
/// them in their order. A wheel that declares none has no link instructions.
pub proof fn law_linked_index_and_scripts<X>(
    wheel_record: WheelRecord,
    entry_points: Vec<EntryPoint>,
    package_record: &PackageRecord<X>,
    target_dir: &PathText,
    current_is_unix: bool,
    options: InstallOptions,
    plan: Result<LinkPlan, WheelInstallError>,
)
    requires
        call_ensures(
            link::link_wheel_sync::<X>,
            (
                Ok(wheel_record),
                Ok(entry_points),
                package_record,
                target_dir,
                current_is_unix,
                options,
            ),
            plan,
        ),
    ensures
        plan matches Ok(p) && (p.options.index_json matches Some(index) && index.name
            == package_record.name && index.version == package_record.version && index.build
            == package_record.build && index.build_number == package_record.build_number
            && index.noarch == NoArchType::Python && says_nothing_else(index)),
        plan matches Ok(p) && (p.options.link_json matches Some(link) && if entry_points@.len()
            == 0 {
            link is None
        } else {
            link matches Some(l) && l.package_metadata_version == 1 && (
            l.noarch matches NoArchLinks::Python(points) && points.entry_points@ == entry_points@)
        }),
{
}

/// After the linking the scripts of the `scripts` category are looked at, if
/// the environment has an interpreter and the platform that is installed for is
/// a Unix one; the interpreter is the one in the prefix that is asked for, or in
/// the directory that is linked into if none is asked for. A prefix that is no
/// text is a failure then, and does no harm otherwise.
pub proof fn law_scripts_after_the_linking<X>(
    wheel_record: WheelRecord,
    entry_points: Vec<EntryPoint>,
    package_record: &PackageRecord<X>,
    target_dir: &PathText,
    current_is_unix: bool,
    options: InstallOptions,
    plan: Result<LinkPlan, WheelInstallError>,
    scripts: Vec<String>,
    is_unix: bool,
    prefix: PathText,
)
    requires
        call_ensures(
            link::link_wheel_sync::<X>,
            (
                Ok(wheel_record),
                Ok(entry_points),
                package_record,
                target_dir,
                current_is_unix,
                options,
            ),
            plan,
        ),
        call_ensures(shebang::fix_up_script_shebangs, (&wheel_record,), scripts),
        options.platform_is_unix == Some(is_unix) || (options.platform_is_unix is None && is_unix
            == current_is_unix),
        options.target_prefix == Some(prefix) || (options.target_prefix is None && prefix
            == *target_dir),
    ensures
        plan matches Ok(p) && if !options.has_python || !is_unix {
            p.shebang_pass matches Ok(None)
        } else {
            match prefix {
                PathText::Utf8(text) => p.shebang_pass matches Ok(Some(pass))
                    && pass.target_prefix@ == text@ && pass.scripts@.len() == scripts@.len()
                    && forall|k: int|
                    0 <= k < scripts@.len() ==> (#[trigger] pass.scripts@[k])@ == scripts@[k]@,
                PathText::NotUtf8(_) => p.shebang_pass matches Err(
                    WheelInstallError::Install(InstallError::TargetPrefixIsNotUtf8),
                ),
            }
        },
{
    let p = plan->Ok_0;
    if options.has_python && is_unix && prefix is Utf8 {
        let pass = p.shebang_pass->Ok_0->Some_0;
        let a = record::string_views(pass.scripts@);
        let b = record::string_views(scripts@);
        assert(a == b);
        assert forall|k: int| 0 <= k < scripts@.len() implies (#[trigger] pass.scripts@[k])@
            == scripts@[k]@ by {
            assert(a[k] == b[k]);
        }
    }
}

/// A wheel with a `file` URL is read from the file that the URL points at, and
/// from nowhere else; any other wheel is downloaded from its URL as it is,
/// whatever the URL is.
pub proof fn law_wheel_source(url: &str, source: Result<WheelSource, WheelInstallError>)
    requires
        call_ensures(install::wheel_source, (url,), source),
    ensures
        install::scheme_of_url(url@) != Some("file"@) ==> (source matches Ok(
            WheelSource::Remote(u),
        ) && u@ == url@),
        install::scheme_of_url(url@) == Some("file"@) ==> match install::file_path_of_url(url@) {
            Some(p) => source matches Ok(WheelSource::File(bytes)) && bytes@ == p,
            None => source matches Err(WheelInstallError::Io(e)) && e.kind
                == IoErrorKind::InvalidInput && e.message@ == "could not convert '"@ + url@
                + "' to a file path"@,
        },
{
}

/// A `file` URL gives the path behind it as it is, or says that it has none.
pub proof fn law_file_source(
    url: &str,
    file_path: Option<Vec<u8>>,
    source: Result<WheelSource, WheelInstallError>,
)
    requires
        call_ensures(install::file_source, (url, file_path), source),
    ensures
        match file_path {
            Some(p) => source matches Ok(WheelSource::File(bytes)) && bytes@ == p@,
            None => source matches Err(WheelInstallError::Io(e)) && e.kind
                == IoErrorKind::InvalidInput && e.message@ == "could not convert '"@ + url@
                + "' to a file path"@,
        },
{
}

/// What was fetched is handed on, and a failure names the URL and the cause.
pub proof fn law_fetch<D>(
    url: &str,
    fetched: Result<D, String>,
    outcome: Result<D, WheelInstallError>,
)
    requires
        call_ensures(install::fetch_outcome::<D>, (url, fetched), outcome),
    ensures
        outcome is Ok <==> fetched is Ok,
        fetched matches Ok(dir) ==> outcome->Ok_0 == dir,
        fetched matches Err(cause) ==> (outcome matches Err(
            WheelInstallError::FailedToFetch(u, c),
        ) && u@ == url@ && c@ == cause@),
{
}

/// A wheel is valid if it is as its own record says, and keeps no metadata.
pub proof fn law_validation<E>(
    checked: Result<(), E>,
    validated: Result<(Option<IndexJson>, Option<PathsJson>), E>,
)
    requires
        call_ensures(install::wheel_validator::<E>, (checked,), validated),
    ensures
        validated is Ok <==> checked is Ok,
        validated matches Ok(kept) ==> kept.0 is None && kept.1 is None,
        checked matches Err(e) ==> validated->Err_0 == e,
{
}

/// Whether two paths are the same, text by text or byte by byte.
pub open spec fn is_same_path(a: PathText, b: PathText) -> bool {
    match (a, b) {
        (PathText::Utf8(x), PathText::Utf8(y)) => x@ == y@,
        (PathText::NotUtf8(x), PathText::NotUtf8(y)) => x@ == y@,
        _ => false,
    }
}

/// What is recorded of an installed wheel is its metadata as it came, whatever
/// it was linked with, and where it was linked from; what the linker reports and
/// what was asked for are recorded as they are.
pub proof fn law_recorded<P, L, X>(
    record: RepoDataRecord<X>,
    cached_wheel_dir: &PathText,
    linked: Result<(Vec<P>, L), WheelInstallError>,
    requested_specs: Vec<String>,
    prefix_record: Result<PrefixRecord<P, L, X>, WheelInstallError>,
)
    requires
        call_ensures(
            install::install_wheel::<P, L, X>,
            (record, cached_wheel_dir, linked, requested_specs),
            prefix_record,
        ),
    ensures
        prefix_record is Ok <==> linked is Ok,
        linked matches Err(e) ==> prefix_record->Err_0 == e,
        linked matches Ok(l) ==> {
            let p = prefix_record->Ok_0;
            &&& p.repodata_record == record
            &&& p.paths == l.0
            &&& p.requested_specs == requested_specs
            &&& p.extracted_package_dir matches Some(dir) && is_same_path(dir, *cached_wheel_dir)
            &&& p.link matches Some(from) && is_same_path(from.source, *cached_wheel_dir)
                && from.link_type == Some(l.1)
        },
{
}

/// An installation ends as it reported, and was cancelled if it never did.
pub proof fn law_reported(
    received: Option<Result<(), WheelInstallError>>,
    outcome: Result<(), WheelInstallError>,
)
    requires
        call_ensures(install::install_outcome, (received,), outcome),
    ensures
        received matches Some(reported) ==> outcome == reported,
        received is None ==> (outcome matches Err(
            WheelInstallError::Install(InstallError::Cancelled),
        )),
{
}

/// A local package file is described by its contents, its index and its URL:
/// how the file is called has no part in it. That the index makes no record is
/// told before the path that makes no URL.
pub proof fn law_described<X>(
    package_path: &str,
    kind: CondaArchiveType,
    index: &IndexJson,
    converted: Result<PackageRecord<X>, String>,
    archive: StreamDigest,
    url: Option<String>,
    record: Result<RepoDataRecord<X>, LocalPackageRecordError>,
)
    requires
        call_ensures(
            install::describe_archive::<X>,
            (package_path, kind, index, converted, archive, url),
            record,
        ),
    ensures
        record is Ok <==> converted is Ok && url is Some,
        converted matches Err(message) ==> (record matches Err(
            LocalPackageRecordError::Convert(m),
        ) && m == message),
        converted is Ok && url is None ==> (record matches Err(
            LocalPackageRecordError::InvalidPath(p),
        ) && p@ == package_path@),
        record matches Ok(r) ==> {
            let made = converted->Ok_0;
            &&& r.url@ == url->Some_0@
            &&& r.channel is None
            &&& r.identifier.archive_type == DistArchiveType::Conda(kind)
            &&& r.identifier.identifier.name@ == index.name.source@
            &&& r.identifier.identifier.version@ == index.version@
            &&& r.identifier.identifier.build_string@ == index.build@
            &&& r.package_record.name == made.name
            &&& r.package_record.version == made.version
            &&& r.package_record.build == made.build
            &&& r.package_record.build_number == made.build_number
            &&& r.package_record.noarch == made.noarch
            &&& r.package_record.subdir == made.subdir
            &&& r.package_record.rest == made.rest
            &&& r.package_record.md5 is None
            &&& r.package_record.size matches Some(size) && size == archive@.len()
            &&& r.package_record.sha256 matches Some(d) && d@ == digest::sha256_of(archive@)
        },
{
}

/// The URL of the description is that of the absolute path of the file, and
/// nothing but a relative path keeps a file with a good index from being
/// described.
pub proof fn law_described_by_path<X>(
    package_path: &str,
    kind: CondaArchiveType,
    index: &IndexJson,
    converted: Result<PackageRecord<X>, String>,
    archive: StreamDigest,
    absolute_path: &str,
    record: Result<RepoDataRecord<X>, LocalPackageRecordError>,
)
    requires
        call_ensures(
            install::repodata_record_from_package_archive::<X>,
            (package_path, kind, index, converted, archive, absolute_path),
            record,
        ),
    ensures
        record is Ok <==> converted is Ok && absolute_path@.len() > 0 && absolute_path@[0] == '/',
        converted matches Err(message) ==> (record matches Err(
            LocalPackageRecordError::Convert(m),
        ) && m == message),
        converted is Ok && record is Err ==> (record matches Err(
            LocalPackageRecordError::InvalidPath(p),
        ) && p@ == package_path@),
        record matches Ok(r) ==> install::url_of_file_path(absolute_path@) == Some(r.url@)
            && r.channel is None && r.identifier.archive_type == DistArchiveType::Conda(kind)
            && r.identifier.identifier.name@ == index.name.source@ && (
        r.package_record.size matches Some(size) && size == archive@.len()) && (
        r.package_record.sha256 matches Some(d) && d@ == digest::sha256_of(archive@)),
{
}

/// An error that is part of another one is kept as it is.
pub proof fn law_errors_are_kept(
    install: InstallError,
    io: IoError,
    extract: ExtractError,
    from_install: WheelInstallError,
    from_io: WheelInstallError,
    from_extract: LocalPackageRecordError,
    from_local_io: LocalPackageRecordError,
)
    requires
        call_ensures(<WheelInstallError as From<InstallError>>::from, (install,), from_install),
        call_ensures(<WheelInstallError as From<IoError>>::from, (io,), from_io),
        call_ensures(
            <LocalPackageRecordError as From<ExtractError>>::from,
            (extract,),
            from_extract,
        ),
        call_ensures(<LocalPackageRecordError as From<IoError>>::from, (io,), from_local_io),
    ensures
        from_install == WheelInstallError::Install(install),
        from_io == WheelInstallError::Io(io),
        from_extract == LocalPackageRecordError::Extract(extract),
        from_local_io == LocalPackageRecordError::Io(io),
{
}

/// An error has the kind and the message that it is made of.
pub proof fn law_new_error(kind: IoErrorKind, message: &str, e: IoError)
    requires
        call_ensures(IoError::new, (kind, message), e),
    ensures
        e.kind == kind,
        e.message@ == message@,
{
}

} // verus!
