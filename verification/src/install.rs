//! Where packages come from, and what is recorded of them.
use crate::digest;
use crate::digest::StreamDigest;
use crate::error::{
    InstallError, IoError, IoErrorKind, LocalPackageRecordError, WheelInstallError,
};
use crate::link::{IndexJson, PackageRecord, PathText, PathsJson};
use crate::package;
use crate::package::CondaArchiveType;
use crate::path;
use vstd::prelude::*;
use vstd::string::*;

verus! {

/// The scheme of the URL that a text writes, if it writes one.
pub uninterp spec fn scheme_of_url(url: Seq<char>) -> Option<Seq<char>>;

/// `url`'s `Url::scheme`, of the URL that `Url::parse` reads. There is none if
/// the text is no URL. The scheme is a function of the text alone.
#[verifier::external_body]
fn url_scheme(url: &str) -> (scheme: Option<String>)
    ensures
        match scheme {
            Some(s) => scheme_of_url(url@) == Some(s@),
            None => scheme_of_url(url@) is None,
        },
{
    url::Url::parse(url).ok().map(|u| u.scheme().to_owned())
}

/// The bytes of the path of the file that a URL points at, if it points at a
/// local file.
pub uninterp spec fn file_path_of_url(url: Seq<char>) -> Option<Seq<u8>>;

/// `url`'s `Url::to_file_path` on Unix, of the URL that `Url::parse` reads. The
/// path is a function of the text alone. There is none if the text is no URL,
/// or if the URL has a host other than `localhost` or has no path segments.
#[verifier::external_body]
fn url_file_path(url: &str) -> (file_path: Option<Vec<u8>>)
    ensures
        match file_path {
            Some(p) => file_path_of_url(url@) == Some(p@),
            None => file_path_of_url(url@) is None,
        },
{
    let file_path = url::Url::parse(url).ok()?.to_file_path().ok()?;
    Some(file_path.into_os_string().into_encoded_bytes())
}

/// The URL of the file with the given path, if it has one.
pub uninterp spec fn url_of_file_path(file_path: Seq<char>) -> Option<Seq<char>>;

/// `url`'s `Url::from_file_path` on Unix. The URL is a function of the path
/// alone. Exactly the absolute paths have one. It begins with `file://`, and
/// reading it back gives a URL of the scheme `file`, as long as it is of a
/// length that can be read.
#[verifier::external_body]
fn file_path_url(file_path: &str) -> (url: Option<String>)
    ensures
        match url {
            Some(u) => url_of_file_path(file_path@) == Some(u@),
            None => url_of_file_path(file_path@) is None,
        },
        url is Some <==> path::is_absolute(file_path@),
        url matches Some(u) ==> "file://"@.is_prefix_of(u@) && (u@.len() <= 0x7fff_ffff
            ==> scheme_of_url(u@) == Some("file"@)),
{
    url::Url::from_file_path(file_path).ok().map(|u| u.to_string())
}

/// Where a wheel is taken from.
#[derive(Debug, Clone, PartialEq, Eq)]
pub enum WheelSource {
    /// From the local file with the path of the given bytes.
    File(Vec<u8>),
    /// From the given URL, by a download.
    Remote(String),
}

/// Where a wheel with the given URL is taken from, if that URL has the given
/// scheme and points at the given file.
pub open spec fn is_source(
    source: Result<WheelSource, WheelInstallError>,
    url: Seq<char>,
    scheme: Option<Seq<char>>,
    file_path: Option<Seq<u8>>,
) -> bool {
    if scheme == Some("file"@) {
        match file_path {
            Some(p) => source matches Ok(WheelSource::File(bytes)) && bytes@ == p,
            None => source matches Err(WheelInstallError::Io(e)) && e.says(
                IoErrorKind::InvalidInput,
                "could not convert '"@ + url + "' to a file path"@,
            ),
        }
    } else {
        source matches Ok(WheelSource::Remote(u)) && u@ == url
    }
}

/// The path behind a `file` URL, or the failure that it has none.
pub fn file_source(url: &str, file_path: Option<Vec<u8>>) -> (source: Result<
    WheelSource,
    WheelInstallError,
>)
    ensures
        is_source(
            source,
            url@,
            Some("file"@),
            match file_path {
                Some(p) => Some(p@),
                None => None,
            },
        ),
{
    match file_path {
        Some(p) => Ok(WheelSource::File(p)),
        None => {
            let mut message = String::new();
            message.append("could not convert '");
            message.append(url);
            message.append("' to a file path");
            assert(message@ == "could not convert '"@ + url@ + "' to a file path"@);
            Err(WheelInstallError::from(IoError { kind: IoErrorKind::InvalidInput, message }))
        },
    }
}

/// Decides where a wheel is taken from: a `file` URL is read from disk, any
/// other is downloaded.
pub fn wheel_source(url: &str) -> (source: Result<WheelSource, WheelInstallError>)
    ensures
        is_source(source, url@, scheme_of_url(url@), file_path_of_url(url@)),
{
    let is_file = match url_scheme(url) {
        Some(scheme) => {
            let chars = crate::text::to_chars(scheme.as_str());
            crate::text::is_text(chars.as_slice(), "file")
        },
        None => false,
    };
    if is_file {
        file_source(url, url_file_path(url))
    } else {
        Ok(WheelSource::Remote(url.to_owned()))
    }
}

/// What comes of holding an extracted wheel against its own `RECORD`. A wheel
/// that is as it should be gives no index and no manifest to keep, since both
/// are cheap to make up from its `RECORD` again; a failure is handed on.
pub fn wheel_validator<E>(checked: Result<(), E>) -> (validated: Result<
    (Option<IndexJson>, Option<PathsJson>),
    E,
>)
    ensures
        match checked {
            Ok(_) => validated matches Ok((index, paths)) && index is None && paths is None,
            Err(e) => validated == Err::<(Option<IndexJson>, Option<PathsJson>), E>(e),
        },
{
    match checked {
        Ok(()) => Ok((None, None)),
        Err(e) => Err(e),
    }
}

/// The outcome of fetching a wheel: what was fetched, or the failure with the
/// URL of the wheel and what went wrong.
pub fn fetch_outcome<D>(url: &str, fetched: Result<D, String>) -> (outcome: Result<
    D,
    WheelInstallError,
>)
    ensures
        match fetched {
            Ok(dir) => outcome == Ok::<_, WheelInstallError>(dir),
            Err(cause) => outcome matches Err(WheelInstallError::FailedToFetch(u, c)) && u@ == url@
                && c == cause,
        },
{
    match fetched {
        Ok(dir) => Ok(dir),
        Err(cause) => Err(WheelInstallError::FailedToFetch(url.to_owned(), cause)),
    }
}

/// The name, the version and the build of a package.
#[derive(Debug, Clone, PartialEq, Eq)]
pub struct ArchiveIdentifier {
    /// The name of the package.
    pub name: String,
    /// The version of the package.
    pub version: String,
    /// The build string of the package.
    pub build_string: String,
}

/// The kinds of archives that a package can come in.
#[derive(Debug, Clone, Copy, PartialEq, Eq, Structural)]
pub enum DistArchiveType {
    /// A conda package.
    Conda(CondaArchiveType),
    /// A wheel.
    Wheel,
}

/// What identifies a package archive.
#[derive(Debug, Clone, PartialEq, Eq)]
pub struct DistArchiveIdentifier {
    /// The package.
    pub identifier: ArchiveIdentifier,
    /// The kind of archive.
    pub archive_type: DistArchiveType,
}

/// A package and where it comes from.
#[derive(Debug, Clone, PartialEq, Eq)]
pub struct RepoDataRecord<X> {
    /// The metadata of the package.
    pub package_record: PackageRecord<X>,
    /// What identifies the archive.
    pub identifier: DistArchiveIdentifier,
    /// The URL of the archive.
    pub url: String,
    /// The channel that has the package.
    pub channel: Option<String>,
}

/// Tells the kind of a local package file by its path, before anything is
/// read.
pub fn local_archive_type(package_path: &str) -> (kind: Result<
    CondaArchiveType,
    LocalPackageRecordError,
>)
    ensures
        match package::archive_type(package_path@) {
            Some(k) => kind == Ok::<_, LocalPackageRecordError>(k),
            None => kind matches Err(LocalPackageRecordError::InvalidPath(p)) && p@
                == package_path@,
        },
{
    match CondaArchiveType::try_from(package_path) {
        Some(kind) => Ok(kind),
        None => Err(LocalPackageRecordError::InvalidPath(package_path.to_owned())),
    }
}

/// The description of a local package file: it is identified by what its own
/// index says, not by how the file is called, and belongs to no channel. Its
/// size and its SHA-256 digest are those of the file; its MD5 digest is not
/// taken. Everything else is what the index makes of it.
pub open spec fn describes_archive<X>(
    r: RepoDataRecord<X>,
    kind: CondaArchiveType,
    index: IndexJson,
    converted: PackageRecord<X>,
    archive: Seq<u8>,
    url: Seq<char>,
) -> bool {
    &&& r.package_record.size matches Some(size) && size == archive.len()
    &&& r.package_record.sha256 matches Some(d) && d@ == digest::sha256_of(archive)
    &&& r.package_record.md5 is None
    &&& r.package_record.name == converted.name
    &&& r.package_record.version == converted.version
    &&& r.package_record.build == converted.build
    &&& r.package_record.build_number == converted.build_number
    &&& r.package_record.noarch == converted.noarch
    &&& r.package_record.subdir == converted.subdir
    &&& r.package_record.rest == converted.rest
    &&& r.identifier.identifier.name@ == index.name.source@
    &&& r.identifier.identifier.version@ == index.version@
    &&& r.identifier.identifier.build_string@ == index.build@
    &&& r.identifier.archive_type == DistArchiveType::Conda(kind)
    &&& r.url@ == url
    &&& r.channel is None
}

/// Whether the attempt to describe a local package file gave the description,
/// or the failure that is the first: that the index makes no record, or that
/// the path makes no URL.
pub open spec fn is_description<X>(
    record: Result<RepoDataRecord<X>, LocalPackageRecordError>,
    package_path: Seq<char>,
    kind: CondaArchiveType,
    index: IndexJson,
    converted: Result<PackageRecord<X>, String>,
    archive: Seq<u8>,
    url: Option<Seq<char>>,
) -> bool {
    match converted {
        Err(message) => record == Err::<RepoDataRecord<X>, _>(
            LocalPackageRecordError::Convert(message),
        ),
        Ok(made) => match url {
            Some(u) => record matches Ok(r) && describes_archive(r, kind, index, made, archive, u),
            None => record matches Err(LocalPackageRecordError::InvalidPath(p)) && p@
                == package_path,
        },
    }
}

/// Describes a local package file, from the kind of the file, its index, the
/// attempt to make a record of the index, everything that was read of the file,
/// and the URL that its absolute path makes.
pub fn describe_archive<X>(
    package_path: &str,
    kind: CondaArchiveType,
    index: &IndexJson,
    converted: Result<PackageRecord<X>, String>,
    archive: StreamDigest,
    url: Option<String>,
) -> (record: Result<RepoDataRecord<X>, LocalPackageRecordError>)
    ensures
        is_description(
            record,
            package_path@,
            kind,
            *index,
            converted,
            archive@,
            match url {
                Some(u) => Some(u@),
                None => None,
            },
        ),
{
    let made = match converted {
        Ok(made) => made,
        Err(message) => {
            return Err(LocalPackageRecordError::Convert(message));
        },
    };
    let url = match url {
        Some(url) => url,
        None => {
            return Err(LocalPackageRecordError::InvalidPath(package_path.to_owned()));
        },
    };
    let identifier = DistArchiveIdentifier {
        identifier: ArchiveIdentifier {
            name: index.name.source.clone(),
            version: index.version.clone(),
            build_string: index.build.clone(),
        },
        archive_type: DistArchiveType::Conda(kind),
    };
    let result = archive.finish();
    let package_record = PackageRecord {
        name: made.name,
        version: made.version,
        build: made.build,
        build_number: made.build_number,
        noarch: made.noarch,
        subdir: made.subdir,
        md5: None,
        sha256: Some(result.sha256),
        size: Some(result.total_size),
        rest: made.rest,
    };
    Ok(RepoDataRecord { package_record, identifier, url, channel: None })
}

/// Describes a local package file, from the kind of the file, its index, the
/// attempt to make a record of the index, everything that was read of the file,
/// and its absolute path, which has to make a URL.
pub fn repodata_record_from_package_archive<X>(
    package_path: &str,
    kind: CondaArchiveType,
    index: &IndexJson,
    converted: Result<PackageRecord<X>, String>,
    archive: StreamDigest,
    absolute_path: &str,
) -> (record: Result<RepoDataRecord<X>, LocalPackageRecordError>)
    ensures
        is_description(
            record,
            package_path@,
            kind,
            *index,
            converted,
            archive@,
            url_of_file_path(absolute_path@),
        ),
        record is Ok <==> converted is Ok && path::is_absolute(absolute_path@),
        record matches Ok(r) ==> (r.url@.len() <= 0x7fff_ffff ==> scheme_of_url(r.url@) == Some(
            "file"@,
        )),
{
    describe_archive(package_path, kind, index, converted, archive, file_path_url(absolute_path))
}

/// Where an installed package was linked from, and how.
#[derive(Debug, PartialEq, Eq)]
pub struct Link<L> {
    /// The directory of the extracted package.
    pub source: PathText,
    /// How the files were put into the environment.
    pub link_type: Option<L>,
}

/// What is recorded of an installed package.
#[derive(Debug, PartialEq, Eq)]
pub struct PrefixRecord<P, L, X> {
    /// The package, as it came.
    pub repodata_record: RepoDataRecord<X>,
    /// The directory of the extracted package.
    pub extracted_package_dir: Option<PathText>,
    /// Where the package was linked from.
    pub link: Option<Link<L>>,
    /// What was asked for.
    pub requested_specs: Vec<String>,
    /// The files that were installed.
    pub paths: Vec<P>,
}

/// A copy of a path.
fn copy_path(p: &PathText) -> (copy: PathText)
    ensures
        copy@ == p@,
{
    match p {
        PathText::Utf8(s) => PathText::Utf8(s.clone()),
        PathText::NotUtf8(bytes) => {
            let copy = bytes.clone();
            assert(copy@ == bytes@);
            PathText::NotUtf8(copy)
        },
    }
}

/// What is recorded of a wheel that was linked from its cache directory. The
/// metadata of the wheel is recorded as it came, whatever it was linked with.
pub fn install_wheel<P, L, X>(
    record: RepoDataRecord<X>,
    cached_wheel_dir: &PathText,
    linked: Result<(Vec<P>, L), WheelInstallError>,
    requested_specs: Vec<String>,
) -> (prefix_record: Result<PrefixRecord<P, L, X>, WheelInstallError>)
    ensures
        match linked {
            Ok((paths, link_type)) => prefix_record matches Ok(p) && {
                &&& p.repodata_record == record
                &&& p.extracted_package_dir matches Some(dir) && dir@ == cached_wheel_dir@
                &&& p.link matches Some(l) && l.source@ == cached_wheel_dir@ && l.link_type
                    == Some(link_type)
                &&& p.requested_specs == requested_specs
                &&& p.paths == paths
            },
            Err(e) => prefix_record == Err::<PrefixRecord<P, L, X>, _>(e),
        },
{
    match linked {
        Ok((paths, link_type)) => Ok(
            PrefixRecord {
                repodata_record: record,
                extracted_package_dir: Some(copy_path(cached_wheel_dir)),
                link: Some(
                    Link { source: copy_path(cached_wheel_dir), link_type: Some(link_type) },
                ),
                requested_specs,
                paths,
            },
        ),
        Err(e) => Err(e),
    }
}

/// The outcome of an installation that ran on another thread. One that never
/// reported back was cancelled.
pub fn install_outcome(received: Option<Result<(), WheelInstallError>>) -> (outcome: Result<
    (),
    WheelInstallError,
>)
    ensures
        outcome == match received {
            Some(r) => r,
            None => Err(WheelInstallError::Install(InstallError::Cancelled)),
        },
{
    match received {
        Some(r) => r,
        None => Err(WheelInstallError::from(InstallError::Cancelled)),
    }
}

} // verus!
