//! Conda package archives: what kind they are and where in them a file lies.
//!
//! A `.tar.bz2` package is one compressed tar archive. A `.conda` package is a
//! zip archive, with a tar archive for the metadata and one for the contents,
//! both of them compressed by themselves and stored as they are.
use crate::error::{ExtractError, IoError};
use crate::extraction::Node;
use crate::path;
use crate::path::PathComponent;
use crate::record;
use crate::text;
use vstd::prelude::*;
use vstd::string::*;

verus! {

/// The kinds of conda packages.
#[derive(Debug, Clone, Copy, PartialEq, Eq, Structural)]
pub enum CondaArchiveType {
    /// A `.tar.bz2` package.
    TarBz2,
    /// A `.conda` package.
    Conda,
}

/// The kind of package that a path names by its extension.
pub open spec fn archive_type(path: Seq<char>) -> Option<CondaArchiveType> {
    if ".conda"@.is_suffix_of(path) {
        Some(CondaArchiveType::Conda)
    } else if ".tar.bz2"@.is_suffix_of(path) {
        Some(CondaArchiveType::TarBz2)
    } else {
        None
    }
}

impl CondaArchiveType {
    /// Tells the kind of a package by the extension of its path.
    pub fn try_from(path: &str) -> (kind: Option<CondaArchiveType>)
        ensures
            kind == archive_type(path@),
    {
        let chars = text::to_chars(path);
        if text::ends_with(chars.as_slice(), ".conda") {
            Some(CondaArchiveType::Conda)
        } else if text::ends_with(chars.as_slice(), ".tar.bz2") {
            Some(CondaArchiveType::TarBz2)
        } else {
            None
        }
    }
}

/// Decides how the package at a path is extracted.
pub fn extract(archive: &str) -> (kind: Result<CondaArchiveType, ExtractError>)
    ensures
        match archive_type(archive@) {
            Some(k) => kind == Ok::<_, ExtractError>(k),
            None => kind == Err::<CondaArchiveType, _>(ExtractError::UnsupportedArchiveType),
        },
{
    match CondaArchiveType::try_from(archive) {
        Some(kind) => Ok(kind),
        None => Err(ExtractError::UnsupportedArchiveType),
    }
}

/// The name of a part of a `.conda` package: a compressed tar archive with the
/// given beginning.
pub open spec fn is_part(name: Seq<char>, prefix: Seq<char>) -> bool {
    prefix.is_prefix_of(name) && ".tar.zst"@.is_suffix_of(name)
}

/// Whether an index is that of the first part with the given beginning.
pub open spec fn is_first_part(names: Seq<Seq<char>>, prefix: Seq<char>, i: int) -> bool {
    &&& 0 <= i < names.len()
    &&& is_part(names[i], prefix)
    &&& forall|j: int| 0 <= j < i ==> !is_part(#[trigger] names[j], prefix)
}

/// What comes of looking for a part with the given beginning: the first one, or
/// the failure that there is none.
pub open spec fn is_part_search(
    names: Seq<Seq<char>>,
    prefix: Seq<char>,
    found: Result<usize, ExtractError>,
) -> bool {
    match found {
        Ok(i) => is_first_part(names, prefix, i as int),
        Err(e) => e == ExtractError::MissingComponent && forall|j: int|
            0 <= j < names.len() ==> !is_part(#[trigger] names[j], prefix),
    }
}

/// Finds a part of a `.conda` package among the names in the zip archive.
fn find_part(names: &Vec<String>, prefix: &str) -> (found: Result<usize, ExtractError>)
    ensures
        match found {
            Ok(i) => is_first_part(record::string_views(names@), prefix@, i as int),
            Err(e) => e == ExtractError::MissingComponent && forall|j: int|
                0 <= j < names@.len() ==> !is_part(
                    #[trigger] record::string_views(names@)[j],
                    prefix@,
                ),
        },
        is_part_search(record::string_views(names@), prefix@, found),
{
    for i in 0..names.len()
        invariant
            forall|j: int|
                0 <= j < i ==> !is_part(#[trigger] record::string_views(names@)[j], prefix@),
    {
        let name = text::to_chars(names[i].as_str());
        assert(record::string_views(names@)[i as int] == name@);
        if text::starts_with(name.as_slice(), prefix) && text::ends_with(
            name.as_slice(),
            ".tar.zst",
        ) {
            return Ok(i);
        }
    }
    Err(ExtractError::MissingComponent)
}

/// Finds the metadata of a `.conda` package among the names in the zip archive:
/// the first name of the form `info-*.tar.zst`.
pub fn stream_conda_info(names: &Vec<String>) -> (found: Result<usize, ExtractError>)
    ensures
        match found {
            Ok(i) => is_first_part(record::string_views(names@), "info-"@, i as int),
            Err(e) => e == ExtractError::MissingComponent && forall|j: int|
                0 <= j < names@.len() ==> !is_part(
                    #[trigger] record::string_views(names@)[j],
                    "info-"@,
                ),
        },
        is_part_search(record::string_views(names@), "info-"@, found),
{
    find_part(names, "info-")
}

/// Finds the contents of a `.conda` package among the names in the zip archive:
/// the first name of the form `pkg-*.tar.zst`.
pub fn stream_conda_content(names: &Vec<String>) -> (found: Result<usize, ExtractError>)
    ensures
        match found {
            Ok(i) => is_first_part(record::string_views(names@), "pkg-"@, i as int),
            Err(e) => e == ExtractError::MissingComponent && forall|j: int|
                0 <= j < names@.len() ==> !is_part(
                    #[trigger] record::string_views(names@)[j],
                    "pkg-"@,
                ),
        },
        is_part_search(record::string_views(names@), "pkg-"@, found),
{
    find_part(names, "pkg-")
}

/// What a zip archive says of a file in it.
#[derive(Debug, Clone, Copy, PartialEq, Eq, Structural)]
pub struct ZipEntryInfo {
    /// Whether the file is stored as it is, without compression.
    pub stored: bool,
    /// Where the contents of the file begin in the archive.
    pub data_start: u64,
    /// The size of the file.
    pub size: u64,
}

/// A part of a file.
#[derive(Debug, Clone, Copy, PartialEq, Eq, Structural)]
pub struct ByteRange {
    /// Where the part begins.
    pub offset: u64,
    /// How many bytes the part has.
    pub size: u64,
}

/// Where the bytes of a part of a `.conda` package lie in the zip archive. The
/// part has to be stored as it is.
pub fn stream_conda_zip_entry(entry: ZipEntryInfo) -> (range: Result<ByteRange, ExtractError>)
    ensures
        match range {
            Ok(r) => entry.stored && r.offset == entry.data_start && r.size == entry.size,
            Err(e) => !entry.stored && e == ExtractError::UnsupportedCompressionMethod,
        },
{
    if !entry.stored {
        return Err(ExtractError::UnsupportedCompressionMethod);
    }
    Ok(ByteRange { offset: entry.data_start, size: entry.size })
}

/// Where in a package a file of its metadata is looked for.
#[derive(Debug, Clone, Copy, PartialEq, Eq, Structural)]
pub enum ArchivePart {
    /// In the whole package, a compressed tar archive.
    Whole,
    /// In the file of a zip archive with the given index, a compressed tar
    /// archive itself.
    ZipEntry(usize),
}

/// Where in a package of the given kind a file of its metadata is looked for:
/// in the whole of a `.tar.bz2` package, and in the metadata of a `.conda`
/// package, which has to be there.
pub open spec fn is_metadata_part(
    archive_type: CondaArchiveType,
    names: Seq<Seq<char>>,
    part: Result<ArchivePart, ExtractError>,
) -> bool {
    match archive_type {
        CondaArchiveType::TarBz2 => part == Ok::<_, ExtractError>(ArchivePart::Whole),
        CondaArchiveType::Conda => match part {
            Ok(p) => p matches ArchivePart::ZipEntry(i) && is_first_part(
                names,
                "info-"@,
                i as int,
            ),
            Err(e) => e == ExtractError::MissingComponent && forall|j: int|
                0 <= j < names.len() ==> !is_part(#[trigger] names[j], "info-"@),
        },
    }
}

/// Decides where in a package a file of its metadata is looked for. The names
/// are those in the zip archive; a `.tar.bz2` package has none.
pub fn read_package_file_content(archive_type: CondaArchiveType, names: &Vec<String>) -> (
    part: Result<ArchivePart, ExtractError>)
    ensures
        is_metadata_part(archive_type, record::string_views(names@), part),
{
    match archive_type {
        CondaArchiveType::TarBz2 => Ok(ArchivePart::Whole),
        CondaArchiveType::Conda => match stream_conda_info(names) {
            Ok(i) => Ok(ArchivePart::ZipEntry(i)),
            Err(e) => Err(e),
        },
    }
}

/// Decides where in the package at a location a file of its metadata is looked
/// for. The names are those in the zip archive; a `.tar.bz2` package has none.
pub fn extract_package_file(location: &str, names: &Vec<String>) -> (part: Result<
    ArchivePart,
    ExtractError,
>)
    ensures
        match archive_type(location@) {
            Some(kind) => is_metadata_part(kind, record::string_views(names@), part),
            None => part == Err::<ArchivePart, _>(ExtractError::UnsupportedArchiveType),
        },
{
    match extract(location) {
        Ok(kind) => read_package_file_content(kind, names),
        Err(e) => Err(e),
    }
}

/// What reading a file of a package's metadata gives, from the attempt to make
/// sense of its contents.
pub fn read_package_file<P>(package_path: &str, parsed: Result<P, IoError>) -> (file: Result<
    P,
    ExtractError,
>)
    ensures
        match parsed {
            Ok(p) => file == Ok::<_, ExtractError>(p),
            Err(cause) => file matches Err(ExtractError::ArchiveMemberParseError(p, e)) && p@
                == package_path@ && e == cause,
        },
{
    match parsed {
        Ok(p) => Ok(p),
        Err(e) => Err(ExtractError::ArchiveMemberParseError(package_path.to_owned(), e)),
    }
}

/// Two paths with the same components.
pub open spec fn same_path(a: Seq<char>, b: Seq<char>) -> bool {
    path::path_components(a) == path::path_components(b)
}

/// Whether two components are the same.
fn same_component(a: &PathComponent<&[char]>, b: &PathComponent<&[char]>) -> (same: bool)
    ensures
        same == (path::component_view(*a) == path::component_view(*b)),
{
    match (a, b) {
        (PathComponent::RootDir, PathComponent::RootDir) => true,
        (PathComponent::CurDir, PathComponent::CurDir) => true,
        (PathComponent::ParentDir, PathComponent::ParentDir) => true,
        (PathComponent::Normal(x), PathComponent::Normal(y)) => text::same_text(x, y),
        _ => false,
    }
}

/// Whether two paths have the same components.
fn is_same_path(a: &str, b: &str) -> (same: bool)
    ensures
        same == same_path(a@, b@),
{
    let a_chars = text::to_chars(a);
    let b_chars = text::to_chars(b);
    let xs = path::components(a_chars.as_slice());
    let ys = path::components(b_chars.as_slice());
    let ghost x = path::component_views(xs@);
    let ghost y = path::component_views(ys@);
    if xs.len() != ys.len() {
        assert(x.len() != y.len());
        return false;
    }
    for i in 0..xs.len()
        invariant
            xs@.len() == ys@.len(),
            x == path::component_views(xs@),
            y == path::component_views(ys@),
            x == path::path_components(a@),
            y == path::path_components(b@),
            forall|j: int| 0 <= j < i ==> x[j] == y[j],
    {
        assert(x[i as int] == path::component_view(xs@[i as int]));
        assert(y[i as int] == path::component_view(ys@[i as int]));
        if !same_component(&xs[i], &ys[i]) {
            return false;
        }
    }
    assert(x == y);
    true
}

/// What is done with the next file of a tar archive, while one is looked for.
#[derive(Debug, PartialEq, Eq)]
pub enum SearchStep {
    /// It is the one: it is read, and the search is over.
    Read,
    /// It is passed over.
    Pass,
    /// There is no next file: the one that is looked for is not there.
    Missing,
}

/// What is done with the next file of a tar archive.
pub open spec fn search_step(file_name: Seq<char>, next: Option<Seq<char>>) -> SearchStep {
    match next {
        Some(p) => if same_path(p, file_name) {
            SearchStep::Read
        } else {
            SearchStep::Pass
        },
        None => SearchStep::Missing,
    }
}

/// Decides what is done with the next file of a tar archive, while the one
/// with the given name is looked for.
pub fn get_file_from_archive(file_name: &str, next: Option<&str>) -> (step: SearchStep)
    ensures
        step == search_step(
            file_name@,
            match next {
                Some(p) => Some(p@),
                None => None,
            },
        ),
{
    match next {
        Some(p) => if is_same_path(p, file_name) {
            SearchStep::Read
        } else {
            SearchStep::Pass
        },
        None => SearchStep::Missing,
    }
}

/// The place in a tar archive where the search for a file ends, if the archive
/// has that file.
pub open spec fn search(file_name: Seq<char>, paths: Seq<Seq<char>>) -> Option<int>
    decreases paths.len(),
{
    if paths.len() == 0 {
        None
    } else {
        match search_step(file_name, Some(paths[0])) {
            SearchStep::Read => Some(0),
            _ => match search(file_name, paths.drop_first()) {
                Some(i) => Some(i + 1),
                None => None,
            },
        }
    }
}

/// The search for a file ends at the first one with its path. It ends without
/// one only if there is none.
pub proof fn law_search_finds_the_first(file_name: Seq<char>, paths: Seq<Seq<char>>)
    ensures
        match search(file_name, paths) {
            Some(i) => 0 <= i < paths.len() && same_path(paths[i], file_name) && forall|j: int|
                0 <= j < i ==> !same_path(#[trigger] paths[j], file_name),
            None => forall|j: int|
                0 <= j < paths.len() ==> !same_path(#[trigger] paths[j], file_name),
        },
    decreases paths.len(),
{
    if paths.len() > 0 {
        let others = paths.drop_first();
        law_search_finds_the_first(file_name, others);
        assert forall|j: int|
            0 < j < paths.len() && !same_path(others[j - 1], file_name) implies !same_path(
            #[trigger] paths[j],
            file_name,
        ) by {
            assert(paths[j] == others[j - 1]);
        }
    }
}

/// Decides whether a file of a `.conda` package is extracted: the compressed
/// tar archives are, everything else is passed over.
pub fn is_extracted_part(name: &str) -> (b: bool)
    ensures
        b == ".tar.zst"@.is_suffix_of(name@),
{
    let chars = text::to_chars(name);
    text::ends_with(chars.as_slice(), ".tar.zst")
}

/// What lies on disk once the files of a `.conda` package were gone through: the
/// trees of those that were extracted, one over the other.
pub open spec fn extracted_tree(
    extracted: Seq<bool>,
    trees: Seq<Map<Seq<char>, Node>>,
) -> Map<Seq<char>, Node>
    decreases extracted.len(),
{
    if extracted.len() == 0 {
        Map::empty()
    } else {
        let earlier = extracted_tree(extracted.drop_last(), trees);
        if extracted.last() {
            earlier.union_prefer_right(trees[extracted.len() - 1])
        } else {
            earlier
        }
    }
}

/// Whether it was decided of each file of a `.conda` package whether it is
/// extracted.
pub open spec fn extract_parts(extracted: Seq<bool>, names: Seq<Seq<char>>) -> bool {
    &&& extracted.len() == names.len()
    &&& forall|i: int|
        0 <= i < names.len() ==> #[trigger] extracted[i] == ".tar.zst"@.is_suffix_of(names[i])
}

/// A `.conda` package leaves the same behind on disk, whether it is unpacked
/// while it is read or from a buffer.
pub proof fn law_both_ways_extract_the_same_parts(
    names: Seq<Seq<char>>,
    trees: Seq<Map<Seq<char>, Node>>,
    streamed: Seq<bool>,
    buffered: Seq<bool>,
)
    requires
        extract_parts(streamed, names),
        extract_parts(buffered, names),
    ensures
        extracted_tree(streamed, trees) == extracted_tree(buffered, trees),
{
    assert forall|i: int| 0 <= i < names.len() implies streamed[i] == buffered[i] by {
        assert(streamed[i] == ".tar.zst"@.is_suffix_of(names[i]));
        assert(buffered[i] == ".tar.zst"@.is_suffix_of(names[i]));
    }
    assert(streamed == buffered);
}

} // verus!
