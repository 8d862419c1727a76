//! What is handed to the linker to install a wheel.
//!
//! A wheel has no `info/index.json` and no `info/paths.json`. Their contents
//! are made up from the wheel's `RECORD` and `entry_points.txt`, so that a
//! wheel is linked the way a `noarch: python` package is, whatever platform it
//! is built for. None of this is stored: what is recorded of an installed
//! wheel is its metadata as it came.
use crate::entry_points::EntryPoint;
use crate::error::{InstallError, IoError, WheelInstallError};
use crate::hash;
use crate::record;
use crate::record::{EntryView, WheelRecord, WheelRecordEntry};
use crate::shebang;
use vstd::prelude::*;
use vstd::string::*;

verus! {

/// The name of a package, as it was given and in the form names are compared
/// in.
#[derive(Debug, Clone, PartialEq, Eq)]
pub struct PackageName {
    /// The name as it was given.
    pub source: String,
    /// The name in the form that is compared.
    pub normalized: String,
}

/// Whether a package is for any platform, and in which way.
#[derive(Debug, Clone, Copy, PartialEq, Eq, Structural)]
pub enum NoArchType {
    /// The package is for one platform.
    OnePlatform,
    /// The package has nothing that depends on a platform.
    Generic,
    /// The package has Python code for any platform.
    Python,
}

/// The metadata of a package, as the channel it comes from gives it: what is
/// looked at here, and whatever else the channel says.
#[derive(Debug, Clone, PartialEq, Eq)]
pub struct PackageRecord<X> {
    /// The name of the package.
    pub name: PackageName,
    /// The version of the package.
    pub version: String,
    /// The build string of the package.
    pub build: String,
    /// The build number of the package.
    pub build_number: u64,
    /// Whether the package is for any platform.
    pub noarch: NoArchType,
    /// The directory of the channel that holds the package.
    pub subdir: String,
    /// The MD5 digest of the package archive.
    pub md5: Option<[u8; 16]>,
    /// The SHA-256 digest of the package archive.
    pub sha256: Option<[u8; 32]>,
    /// The size of the package archive.
    pub size: Option<u64>,
    /// Everything else, such as the packages that are needed and the license.
    pub rest: X,
}

/// The contents of an `info/index.json` file.
#[derive(Debug, Clone, PartialEq, Eq)]
pub struct IndexJson {
    /// The architecture.
    pub arch: Option<String>,
    /// The build string.
    pub build: String,
    /// The build number.
    pub build_number: u64,
    /// Constraints on other packages.
    pub constrains: Vec<String>,
    /// The packages that are needed.
    pub depends: Vec<String>,
    /// The packages that are needed for each extra.
    pub extra_depends: Vec<(String, Vec<String>)>,
    /// Features.
    pub features: Option<String>,
    /// Flags.
    pub flags: Vec<String>,
    /// The license.
    pub license: Option<String>,
    /// The license family.
    pub license_family: Option<String>,
    /// The name of the package.
    pub name: PackageName,
    /// How the package is linked.
    pub noarch: NoArchType,
    /// The platform.
    pub platform: Option<String>,
    /// Package URLs.
    pub purls: Option<Vec<String>>,
    /// The path of `site-packages`, for a Python interpreter.
    pub python_site_packages_path: Option<String>,
    /// The revision of the repodata format.
    pub repodata_revision: Option<u64>,
    /// The directory of the channel that holds the package.
    pub subdir: Option<String>,
    /// When the package was built.
    pub timestamp: Option<i64>,
    /// Tracked features.
    pub track_features: Vec<String>,
    /// The version of the package.
    pub version: String,
}

/// The index that stands for a wheel's own: it has the name, the version and
/// the build of the package, is linked as Python code for any platform, and
/// says nothing else.
pub open spec fn is_synthetic_index<X>(index: IndexJson, record: PackageRecord<X>) -> bool {
    &&& index.name == record.name
    &&& index.version == record.version
    &&& index.build == record.build
    &&& index.build_number == record.build_number
    &&& index.noarch == NoArchType::Python
    &&& index.arch is None
    &&& index.constrains@.len() == 0
    &&& index.depends@.len() == 0
    &&& index.extra_depends@.len() == 0
    &&& index.features is None
    &&& index.flags@.len() == 0
    &&& index.license is None
    &&& index.license_family is None
    &&& index.platform is None
    &&& index.purls is None
    &&& index.python_site_packages_path is None
    &&& index.repodata_revision is None
    &&& index.subdir is None
    &&& index.timestamp is None
    &&& index.track_features@.len() == 0
}

/// Builds the index that a wheel is linked with. The name has to be the one of
/// the package, since the installed paths are registered under it.
pub fn synthetic_index_json<X>(record: &PackageRecord<X>) -> (index: IndexJson)
    ensures
        is_synthetic_index(index, *record),
{
    IndexJson {
        arch: None,
        build: record.build.clone(),
        build_number: record.build_number,
        constrains: Vec::new(),
        depends: Vec::new(),
        extra_depends: Vec::new(),
        features: None,
        flags: Vec::new(),
        license: None,
        license_family: None,
        name: PackageName {
            source: record.name.source.clone(),
            normalized: record.name.normalized.clone(),
        },
        noarch: NoArchType::Python,
        platform: None,
        purls: None,
        python_site_packages_path: None,
        repodata_revision: None,
        subdir: None,
        timestamp: None,
        track_features: Vec::new(),
        version: record.version.clone(),
    }
}

/// How a file is put into an environment.
#[derive(Debug, Clone, Copy, PartialEq, Eq, Structural)]
pub enum PathType {
    /// As a hard link, or a copy where there can be none.
    HardLink,
    /// As a symbolic link.
    SoftLink,
    /// As a directory.
    Directory,
}

/// A file to link.
#[derive(Debug, Clone, PartialEq, Eq)]
pub struct PathsEntry {
    /// The path of the file in the extracted package.
    pub relative_path: String,
    /// Whether the file must be copied.
    pub no_link: bool,
    /// How the file is put into the environment.
    pub path_type: PathType,
    /// The placeholder for the environment's path in the file.
    pub prefix_placeholder: Option<String>,
    /// The SHA-256 digest of the file.
    pub sha256: Option<[u8; 32]>,
    /// The size of the file.
    pub size_in_bytes: Option<u64>,
}

/// A file of a wheel, as the linker gets it: under the path it has in the
/// archive, as a hard link and without a placeholder.
pub open spec fn is_linked_entry(path: PathsEntry, entry: EntryView) -> bool {
    &&& path.relative_path@ == entry.archive_path
    &&& !path.no_link
    &&& path.path_type == PathType::HardLink
    &&& path.prefix_placeholder is None
    &&& hash::digest_view(path.sha256) == entry.sha256
    &&& path.size_in_bytes == entry.size
}

/// The contents of an `info/paths.json` file.
#[derive(Debug, Clone, PartialEq, Eq)]
pub struct PathsJson {
    /// The files to link.
    pub paths: Vec<PathsEntry>,
    /// The version of the format.
    pub paths_version: u64,
}

/// The manifest that stands for a wheel's `RECORD`: every listed file, in its
/// order.
pub open spec fn is_synthetic_paths(paths: PathsJson, entries: Seq<EntryView>) -> bool {
    &&& paths.paths_version == 1
    &&& paths.paths@.len() == entries.len()
    &&& forall|i: int|
        0 <= i < entries.len() ==> is_linked_entry(#[trigger] paths.paths@[i], entries[i])
}

/// Builds the manifest that a wheel is linked with.
pub fn synthetic_paths_json(wheel_record: &WheelRecord) -> (paths: PathsJson)
    ensures
        is_synthetic_paths(paths, wheel_record@),
{
    let mut paths: Vec<PathsEntry> = Vec::new();
    for i in 0..wheel_record.entries.len()
        invariant
            paths@.len() == i,
            forall|j: int|
                0 <= j < i ==> is_linked_entry(#[trigger] paths@[j], wheel_record@[j]),
    {
        let entry: &WheelRecordEntry = &wheel_record.entries[i];
        assert(wheel_record@[i as int] == entry@);
        paths.push(
            PathsEntry {
                relative_path: entry.archive_path.clone(),
                no_link: false,
                path_type: PathType::HardLink,
                prefix_placeholder: None,
                sha256: entry.sha256,
                size_in_bytes: entry.size,
            },
        );
    }
    PathsJson { paths, paths_version: 1 }
}

/// The scripts that are made for a package.
#[derive(Debug, Clone, PartialEq, Eq)]
pub struct PythonEntryPoints {
    /// The scripts.
    pub entry_points: Vec<EntryPoint>,
}

/// How a package for any platform is linked.
#[derive(Debug, Clone, PartialEq, Eq)]
pub enum NoArchLinks {
    /// As Python code, with the given scripts.
    Python(PythonEntryPoints),
    /// Without anything special.
    Generic,
}

/// The contents of an `info/link.json` file.
#[derive(Debug, Clone, PartialEq, Eq)]
pub struct LinkJson {
    /// How the package is linked.
    pub noarch: NoArchLinks,
    /// The version of the format.
    pub package_metadata_version: u64,
}

/// A path that may not be text.
#[derive(Debug, Clone, PartialEq, Eq)]
pub enum PathText {
    /// A path that is UTF-8.
    Utf8(String),
    /// The bytes of any other path.
    NotUtf8(Vec<u8>),
}

impl View for PathText {
    type V = Result<Seq<char>, Seq<u8>>;

    /// The characters of a path that is UTF-8, the bytes of any other.
    open spec fn view(&self) -> Result<Seq<char>, Seq<u8>> {
        match self {
            PathText::Utf8(s) => Ok(s@),
            PathText::NotUtf8(bytes) => Err(bytes@),
        }
    }
}

/// What the linker is told, as far as wheels have a say in it.
#[derive(Debug, Clone, PartialEq, Eq)]
pub struct InstallOptions {
    /// The manifest of the package, where it does not come from the package.
    pub paths_json: Option<PathsJson>,
    /// The index of the package, where it does not come from the package.
    pub index_json: Option<IndexJson>,
    /// The link instructions, where they do not come from the package. There
    /// may be none.
    pub link_json: Option<Option<LinkJson>>,
    /// Whether the paths are those of a wheel archive, so that they have to be
    /// mapped onto the paths where the files are installed.
    pub is_wheel: bool,
    /// Whether the environment has a Python interpreter.
    pub has_python: bool,
    /// The path that the environment will have, if it is not the directory
    /// that is linked into.
    pub target_prefix: Option<PathText>,
    /// Whether the platform to install for is a Unix one, if it is not the
    /// platform of this machine.
    pub platform_is_unix: Option<bool>,
}

/// The scripts whose first lines have to be looked at once a wheel is linked.
#[derive(Debug, Clone, PartialEq, Eq)]
pub struct ShebangPass {
    /// The path of the environment that the interpreter is in.
    pub target_prefix: String,
    /// The paths of the scripts, with `python-scripts` standing for the
    /// directory of executables.
    pub scripts: Vec<String>,
}

/// How a wheel is linked.
#[derive(Debug, PartialEq, Eq)]
pub struct LinkPlan {
    /// What the linker is told.
    pub options: InstallOptions,
    /// What is to be done when the linker has succeeded.
    pub shebang_pass: Result<Option<ShebangPass>, WheelInstallError>,
}

/// The path that the environment will have.
pub open spec fn effective_prefix(options: InstallOptions, target_dir: PathText) -> PathText {
    match options.target_prefix {
        Some(prefix) => prefix,
        None => target_dir,
    }
}

/// Whether scripts need a line for their interpreter: there has to be one, and
/// such lines have a meaning on Unix only.
pub open spec fn needs_shebang_pass(options: InstallOptions, current_is_unix: bool) -> bool {
    options.has_python && match options.platform_is_unix {
        Some(is_unix) => is_unix,
        None => current_is_unix,
    }
}

/// The options that a wheel is linked with: made-up metadata in the place of
/// what the wheel does not have, and everything else as it was.
pub open spec fn are_wheel_options<X>(
    new: InstallOptions,
    old: InstallOptions,
    entries: Seq<EntryView>,
    entry_points: Seq<EntryPoint>,
    record: PackageRecord<X>,
) -> bool {
    &&& new.is_wheel
    &&& new.paths_json matches Some(paths) && is_synthetic_paths(paths, entries)
    &&& new.index_json matches Some(index) && is_synthetic_index(index, record)
    &&& new.link_json matches Some(link) && match link {
        Some(l) => {
            &&& entry_points.len() > 0
            &&& l.package_metadata_version == 1
            &&& l.noarch matches NoArchLinks::Python(p) && p.entry_points@ == entry_points
        },
        None => entry_points.len() == 0,
    }
    &&& new.has_python == old.has_python
    &&& new.target_prefix == old.target_prefix
    &&& new.platform_is_unix == old.platform_is_unix
}

/// The pass over the scripts that follows the linking of a wheel.
pub open spec fn is_shebang_pass(
    pass: Result<Option<ShebangPass>, WheelInstallError>,
    options: InstallOptions,
    target_dir: PathText,
    current_is_unix: bool,
    entries: Seq<EntryView>,
) -> bool {
    if needs_shebang_pass(options, current_is_unix) {
        match effective_prefix(options, target_dir) {
            PathText::Utf8(prefix) => pass matches Ok(Some(p)) && p.target_prefix@ == prefix@
                && record::string_views(p.scripts@) == entries.filter_map(
                |e: EntryView| shebang::script_destination(e),
            ),
            PathText::NotUtf8(_) => pass == Err::<Option<ShebangPass>, _>(
                WheelInstallError::Install(InstallError::TargetPrefixIsNotUtf8),
            ),
        }
    } else {
        pass == Ok::<_, WheelInstallError>(None::<ShebangPass>)
    }
}

/// Plans how a cached wheel is linked into an environment, from the attempts to
/// read its record and its entry points.
pub fn link_wheel_sync<X>(
    wheel_record: Result<WheelRecord, IoError>,
    entry_points: Result<Vec<EntryPoint>, WheelInstallError>,
    package_record: &PackageRecord<X>,
    target_dir: &PathText,
    current_is_unix: bool,
    options: InstallOptions,
) -> (plan: Result<LinkPlan, WheelInstallError>)
    ensures
        match (wheel_record, entry_points) {
            (Ok(record), Ok(points)) => plan matches Ok(p) && are_wheel_options(
                p.options,
                options,
                record@,
                points@,
                *package_record,
            ) && is_shebang_pass(
                p.shebang_pass,
                options,
                *target_dir,
                current_is_unix,
                record@,
            ),
            (Err(e), _) => plan == Err::<LinkPlan, _>(WheelInstallError::FailedToReadRecord(e)),
            (Ok(_), Err(e)) => plan == Err::<LinkPlan, _>(e),
        },
{
    let wheel_record = match wheel_record {
        Ok(record) => record,
        Err(e) => {
            return Err(WheelInstallError::FailedToReadRecord(e));
        },
    };
    let entry_points = match entry_points {
        Ok(points) => points,
        Err(e) => {
            return Err(e);
        },
    };
    let link_json = if entry_points.len() == 0 {
        None
    } else {
        Some(
            LinkJson {
                noarch: NoArchLinks::Python(PythonEntryPoints { entry_points }),
                package_metadata_version: 1,
            },
        )
    };
    let is_unix = match options.platform_is_unix {
        Some(is_unix) => is_unix,
        None => current_is_unix,
    };
    let prefix = match &options.target_prefix {
        Some(prefix) => prefix,
        None => target_dir,
    };
    let shebang_pass = if options.has_python && is_unix {
        match prefix {
            PathText::Utf8(target_prefix) => Ok(
                Some(
                    ShebangPass {
                        target_prefix: target_prefix.clone(),
                        scripts: shebang::fix_up_script_shebangs(&wheel_record),
                    },
                ),
            ),
            PathText::NotUtf8(_) => Err(
                WheelInstallError::from(InstallError::TargetPrefixIsNotUtf8),
            ),
        }
    } else {
        Ok(None)
    };
    let options = InstallOptions {
        paths_json: Some(synthetic_paths_json(&wheel_record)),
        index_json: Some(synthetic_index_json(package_record)),
        link_json: Some(link_json),
        is_wheel: true,
        has_python: options.has_python,
        target_prefix: options.target_prefix,
        platform_is_unix: options.platform_is_unix,
    };
    Ok(LinkPlan { options, shebang_pass })
}

} // verus!
