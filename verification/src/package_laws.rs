//! How conda packages are told apart by their names, and where in them
//! something is found.
use crate::category_laws;
use crate::error::{ExtractError, IoError, LocalPackageRecordError};
use crate::install;
use crate::package;
use crate::package::{ArchivePart, ByteRange, CondaArchiveType, SearchStep, ZipEntryInfo};
use crate::path;
use crate::path_laws;
use crate::record;
use vstd::prelude::*;
use vstd::string::*;

verus! {

/// Whether a path is anything and an extension.
pub open spec fn has_extension(path: Seq<char>, extension: Seq<char>) -> bool {
    exists|stem: Seq<char>| path == #[trigger] (stem + extension)
}

/// A path with an extension ends with it.
proof fn lemma_extension(path: Seq<char>, extension: Seq<char>)
    ensures
        has_extension(path, extension) <==> extension.is_suffix_of(path),
{
    if has_extension(path, extension) {
        let stem = choose|stem: Seq<char>| path == #[trigger] (stem + extension);
        category_laws::lemma_suffix(stem, extension);
    }
    if extension.is_suffix_of(path) {
        category_laws::lemma_has_suffix(path, extension);
        let stem = path.take(path.len() - extension.len());
        assert(path == stem + extension);
    }
}

/// Every path that ends in `.conda` is that of a `.conda` package, every one
/// that ends in `.tar.bz2` is that of a `.tar.bz2` package, whatever is before
/// the extension, and no other path is that of a package.
pub proof fn law_archive_type(path: &str, kind: Option<CondaArchiveType>, stem: Seq<char>)
    requires
        call_ensures(CondaArchiveType::try_from, (path,), kind),
    ensures
        path@ == stem + ".conda"@ ==> kind == Some(CondaArchiveType::Conda),
        path@ == stem + ".tar.bz2"@ ==> kind == Some(CondaArchiveType::TarBz2),
        kind == Some(CondaArchiveType::Conda) ==> has_extension(path@, ".conda"@),
        kind == Some(CondaArchiveType::TarBz2) ==> has_extension(path@, ".tar.bz2"@),
        !has_extension(path@, ".conda"@) && !has_extension(path@, ".tar.bz2"@) ==> kind is None,
{
    lemma_extension(path@, ".conda"@);
    lemma_extension(path@, ".tar.bz2"@);
    reveal_strlit(".conda");
    reveal_strlit(".tar.bz2");
    if path@ == stem + ".conda"@ {
        assert(has_extension(path@, ".conda"@));
    }
    if path@ == stem + ".tar.bz2"@ {
        assert(has_extension(path@, ".tar.bz2"@));
        assert(path@.last() == '2');
        if has_extension(path@, ".conda"@) {
            let other = choose|other: Seq<char>| path@ == #[trigger] (other + ".conda"@);
            assert(path@.last() == 'a');
        }
    }
}

/// A package is extracted by its kind, and described by its kind; a path of no
/// kind is refused either way.
pub proof fn law_kinds_agree(
    path: &str,
    kind: Option<CondaArchiveType>,
    extracted: Result<CondaArchiveType, ExtractError>,
    described: Result<CondaArchiveType, LocalPackageRecordError>,
)
    requires
        call_ensures(CondaArchiveType::try_from, (path,), kind),
        call_ensures(package::extract, (path,), extracted),
        call_ensures(install::local_archive_type, (path,), described),
    ensures
        match kind {
            Some(k) => (extracted matches Ok(e) && e == k) && (described matches Ok(d) && d == k),
            None => (extracted matches Err(ExtractError::UnsupportedArchiveType)) && (
            described matches Err(LocalPackageRecordError::InvalidPath(p)) && p@ == path@),
        },
{
}

/// The name of a part: a beginning, anything, and `.tar.zst`.
pub open spec fn is_part_named(name: Seq<char>, prefix: Seq<char>) -> bool {
    exists|x: Seq<char>| name == #[trigger] (prefix + x + ".tar.zst"@)
}

/// The names of the two kinds of parts.
pub proof fn lemma_part(name: Seq<char>, prefix: Seq<char>)
    requires
        prefix == "info-"@ || prefix == "pkg-"@,
    ensures
        is_part_named(name, prefix) <==> package::is_part(name, prefix),
{
    reveal_strlit("info-");
    reveal_strlit("pkg-");
    reveal_strlit(".tar.zst");
    let end = ".tar.zst"@;
    if is_part_named(name, prefix) {
        let x = choose|x: Seq<char>| name == #[trigger] (prefix + x + end);
        category_laws::lemma_suffix(prefix + x, end);
        assert(name.take(prefix.len() as int) == prefix);
    }
    if package::is_part(name, prefix) {
        category_laws::lemma_has_suffix(name, end);
        assert(name.subrange(0, prefix.len() as int) == prefix);
        assert(name[prefix.len() - 1] == prefix[prefix.len() - 1]);
        let (n, k) = (name.len() as int, prefix.len() as int);
        assert(name[k - 1] == '-');
        assert forall|i: int| 0 <= i < 8 implies name[n - 8 + i] == #[trigger] end[i] by {}
        if n < k + 8 {
            let i = k - 1 - (n - 8);
            assert(0 <= i < 8);
            assert(name[n - 8 + i] == end[i]);
        }
        let x = name.subrange(k, n - 8);
        assert(name =~= prefix + x + end);
    }
}

/// There is one first part, if there is any.
pub proof fn lemma_first_part(names: Seq<Seq<char>>, prefix: Seq<char>, i: int, k: int)
    requires
        package::is_first_part(names, prefix, i),
    ensures
        package::is_part(names[i], prefix),
        package::is_first_part(names, prefix, k) ==> k == i,
{
    if package::is_first_part(names, prefix, k) {
        assert(package::is_part(names[k], prefix));
        assert(package::is_part(names[i], prefix));
    }
}

/// A part with a name is the first one if no name before it is that of a part.
proof fn lemma_first_named(names: &Vec<String>, prefix: Seq<char>, i: int)
    requires
        prefix == "info-"@ || prefix == "pkg-"@,
        0 <= i < names@.len(),
        is_part_named(names@[i]@, prefix),
        forall|j: int| 0 <= j < i ==> !is_part_named((#[trigger] names@[j])@, prefix),
    ensures
        package::is_first_part(record::string_views(names@), prefix, i),
{
    let views = record::string_views(names@);
    lemma_part(names@[i]@, prefix);
    assert(views[i] == names@[i]@);
    assert forall|j: int| 0 <= j < i implies !package::is_part(#[trigger] views[j], prefix) by {
        lemma_part(names@[j]@, prefix);
        assert(views[j] == names@[j]@);
    }
}

/// The metadata of a `.conda` package is the first file `info-<anything>.tar.zst`
/// in it. It is missing only if there is none.
pub proof fn law_conda_info(names: &Vec<String>, found: Result<usize, ExtractError>, i: int)
    requires
        call_ensures(package::stream_conda_info, (names,), found),
        0 <= i < names@.len(),
        is_part_named(names@[i]@, "info-"@),
        forall|j: int| 0 <= j < i ==> !is_part_named((#[trigger] names@[j])@, "info-"@),
    ensures
        found matches Ok(k) && k == i,
{
    let views = record::string_views(names@);
    lemma_first_named(names, "info-"@, i);
    match found {
        Ok(k) => lemma_first_part(views, "info-"@, i, k as int),
        Err(_) => lemma_first_part(views, "info-"@, i, i),
    }
}

/// The contents of a `.conda` package are the first file
/// `pkg-<anything>.tar.zst` in it. They are missing only if there is none.
pub proof fn law_conda_content(names: &Vec<String>, found: Result<usize, ExtractError>, i: int)
    requires
        call_ensures(package::stream_conda_content, (names,), found),
        0 <= i < names@.len(),
        is_part_named(names@[i]@, "pkg-"@),
        forall|j: int| 0 <= j < i ==> !is_part_named((#[trigger] names@[j])@, "pkg-"@),
    ensures
        found matches Ok(k) && k == i,
{
    let views = record::string_views(names@);
    lemma_first_named(names, "pkg-"@, i);
    match found {
        Ok(k) => lemma_first_part(views, "pkg-"@, i, k as int),
        Err(_) => lemma_first_part(views, "pkg-"@, i, i),
    }
}

/// A package without a part of the name misses it.
pub proof fn law_missing_parts(
    names: &Vec<String>,
    info: Result<usize, ExtractError>,
    content: Result<usize, ExtractError>,
)
    requires
        call_ensures(package::stream_conda_info, (names,), info),
        call_ensures(package::stream_conda_content, (names,), content),
    ensures
        (forall|j: int|
            0 <= j < names@.len() ==> !is_part_named((#[trigger] names@[j])@, "info-"@)) ==> (
        info matches Err(ExtractError::MissingComponent)),
        (forall|j: int|
            0 <= j < names@.len() ==> !is_part_named((#[trigger] names@[j])@, "pkg-"@)) ==> (
        content matches Err(ExtractError::MissingComponent)),
{
    let views = record::string_views(names@);
    if let Ok(i) = info {
        assert(views[i as int] == names@[i as int]@);
        lemma_part(names@[i as int]@, "info-"@);
    }
    if let Ok(i) = content {
        assert(views[i as int] == names@[i as int]@);
        lemma_part(names@[i as int]@, "pkg-"@);
    }
}

/// The metadata of a `.conda` package is found in one place.
proof fn lemma_same_part(
    names: Seq<Seq<char>>,
    info: Result<usize, ExtractError>,
    part: Result<ArchivePart, ExtractError>,
)
    requires
        package::is_part_search(names, "info-"@, info),
    ensures
        package::is_metadata_part(CondaArchiveType::Conda, names, part) ==> match info {
            Ok(i) => part matches Ok(ArchivePart::ZipEntry(k)) && k == i,
            Err(e) => part matches Err(cause) && cause == e,
        },
{
    if package::is_metadata_part(CondaArchiveType::Conda, names, part) {
        match part {
            Ok(p) => {
                let k = p->ZipEntry_0 as int;
                lemma_first_part(names, "info-"@, k, k);
                if let Ok(i) = info {
                    lemma_first_part(names, "info-"@, k, i as int);
                }
            },
            Err(_) => {
                if let Ok(i) = info {
                    lemma_first_part(names, "info-"@, i as int, i as int);
                }
            },
        }
    }
}

/// The metadata of a package is looked for in the whole of a `.tar.bz2` package,
/// and where the metadata of a `.conda` package is found.
pub proof fn law_metadata_part(
    kind: CondaArchiveType,
    names: &Vec<String>,
    part: Result<ArchivePart, ExtractError>,
    info: Result<usize, ExtractError>,
)
    requires
        call_ensures(package::read_package_file_content, (kind, names), part),
        call_ensures(package::stream_conda_info, (names,), info),
    ensures
        kind == CondaArchiveType::TarBz2 ==> (part matches Ok(ArchivePart::Whole)),
        kind == CondaArchiveType::Conda ==> match info {
            Ok(i) => part matches Ok(ArchivePart::ZipEntry(k)) && k == i,
            Err(e) => part matches Err(cause) && cause == e,
        },
{
    let views = record::string_views(names@);
    lemma_same_part(views, info, part);
}

/// The metadata of the package at a location is looked for as the kind of the
/// location says.
pub proof fn law_metadata_part_by_location(
    location: &str,
    names: &Vec<String>,
    kind: Option<CondaArchiveType>,
    part: Result<ArchivePart, ExtractError>,
    info: Result<usize, ExtractError>,
)
    requires
        call_ensures(CondaArchiveType::try_from, (location,), kind),
        call_ensures(package::extract_package_file, (location, names), part),
        call_ensures(package::stream_conda_info, (names,), info),
    ensures
        match kind {
            Some(CondaArchiveType::TarBz2) => part matches Ok(ArchivePart::Whole),
            Some(CondaArchiveType::Conda) => match info {
                Ok(i) => part matches Ok(ArchivePart::ZipEntry(k)) && k == i,
                Err(e) => part matches Err(cause) && cause == e,
            },
            None => part matches Err(ExtractError::UnsupportedArchiveType),
        },
{
    let views = record::string_views(names@);
    lemma_same_part(views, info, part);
}

/// A part is read where it lies if it is stored as it is, and not at all
/// otherwise.
pub proof fn law_stored_part(entry: ZipEntryInfo, range: Result<ByteRange, ExtractError>)
    requires
        call_ensures(package::stream_conda_zip_entry, (entry,), range),
    ensures
        entry.stored ==> (range matches Ok(r) && r.offset == entry.data_start && r.size
            == entry.size),
        !entry.stored ==> (range matches Err(ExtractError::UnsupportedCompressionMethod)),
{
}

/// A file of the metadata is what its contents make, and a file whose contents
/// make no sense is named.
pub proof fn law_metadata_file<P>(
    package_path: &str,
    parsed: Result<P, IoError>,
    file: Result<P, ExtractError>,
)
    requires
        call_ensures(package::read_package_file::<P>, (package_path, parsed), file),
    ensures
        file is Ok <==> parsed is Ok,
        parsed matches Ok(p) ==> file->Ok_0 == p,
        parsed matches Err(cause) ==> (file matches Err(
            ExtractError::ArchiveMemberParseError(p, e),
        ) && p@ == package_path@ && e == cause),
{
}

/// A file that is looked for is found by the components of its path, and is
/// missing when no files are left.
pub proof fn law_search_step(file_name: &str, next: Option<&str>, step: SearchStep)
    requires
        call_ensures(package::get_file_from_archive, (file_name, next), step),
    ensures
        next is None ==> step == SearchStep::Missing,
        next matches Some(p) ==> step == if path::path_components(p@) == path::path_components(
            file_name@,
        ) {
            SearchStep::Read
        } else {
            SearchStep::Pass
        },
        next matches Some(p) ==> p@ == file_name@ ==> step == SearchStep::Read,
{
}

/// Paths of names are told apart by every one of their names.
pub proof fn law_search_by_names(
    file_name: &str,
    next: &str,
    step: SearchStep,
    wanted: Seq<Seq<char>>,
    names: Seq<Seq<char>>,
)
    requires
        call_ensures(package::get_file_from_archive, (file_name, Some(next)), step),
        path_laws::are_names(wanted),
        path_laws::are_names(names),
        file_name@ == path_laws::slashed(wanted),
        next@ == path_laws::slashed(names),
    ensures
        step == if names == wanted {
            SearchStep::Read
        } else {
            SearchStep::Pass
        },
{
    path_laws::law_path_of_names(wanted);
    path_laws::law_path_of_names(names);
    let a = path_laws::normal(names);
    let b = path_laws::normal(wanted);
    if a == b {
        assert forall|i: int| 0 <= i < names.len() implies names[i] == wanted[i] by {
            assert(a[i] == b[i]);
        }
        assert(names == wanted);
    }
}

/// Exactly the files `<anything>.tar.zst` of a `.conda` package are extracted.
pub proof fn law_extracted_parts(name: &str, extracted: bool)
    requires
        call_ensures(package::is_extracted_part, (name,), extracted),
    ensures
        extracted <==> has_extension(name@, ".tar.zst"@),
{
    lemma_extension(name@, ".tar.zst"@);
}

} // verus!
