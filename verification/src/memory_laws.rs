//! What is found in zip archives that are held in memory.
use crate::category;
use crate::digest;
use crate::digest::ExtractResult;
use crate::error::{ExtractError, IoErrorKind, ZipError, ZipErrorView};
use crate::extraction::{EntryAction, Layout};
use crate::memory;
use crate::memory::WheelEntry;
use crate::package;
use crate::package::ByteRange;
use crate::package_laws;
use vstd::prelude::*;
use vstd::string::*;

verus! {

/// The failure to read a file keeps the kinds that are told apart, and its text.
pub proof fn law_read_error(kind: &str, message: String, error: ExtractError)
    requires
        call_ensures(memory::read_error, (kind, message), error),
    ensures
        error matches ExtractError::IoError(e) && e.message@ == message@ && match e.kind {
            IoErrorKind::NotFound => kind@ == "NotFound"@,
            IoErrorKind::InvalidData => kind@ == "InvalidData"@,
            IoErrorKind::InvalidInput => kind@ == "InvalidInput"@,
            IoErrorKind::UnexpectedEof => kind@ == "UnexpectedEof"@,
            IoErrorKind::Other => kind@ != "NotFound"@ && kind@ != "InvalidData"@ && kind@
                != "InvalidInput"@ && kind@ != "UnexpectedEof"@,
        },
{
}

/// What an error of a zip archive says is what is unsupported or what happened,
/// to the letter, and the two are told apart.
pub proof fn law_zip_errors(a: ZipError, b: ZipError)
    ensures
        a@ == b@ <==> match (a, b) {
            (ZipError::UnsupportedArchive(x), ZipError::UnsupportedArchive(y)) => x@ == y@,
            (ZipError::Other(x), ZipError::Other(y)) => x@ == y@,
            _ => false,
        },
{
}

/// Whether a range is where the file of a name lies, or the failure that keeps
/// it from being read there.
pub open spec fn is_range_of(
    archive: Seq<u8>,
    name: Seq<char>,
    range: Result<ByteRange, ExtractError>,
) -> bool {
    match memory::file_in_zip(archive, name) {
        Ok(entry) => if entry.stored {
            range matches Ok(r) && r.offset == entry.data_start && r.size == entry.size
        } else {
            range matches Err(ExtractError::UnsupportedCompressionMethod)
        },
        Err(z) => range matches Err(ExtractError::ZipError(e)) && e@ == z,
    }
}

/// Where the first part of a beginning lies.
proof fn lemma_range(
    archive: Seq<u8>,
    prefix: Seq<char>,
    range: Result<ByteRange, ExtractError>,
    names: Seq<Seq<char>>,
    i: int,
)
    requires
        memory::is_part_range(archive, prefix, range),
        prefix == "info-"@ || prefix == "pkg-"@,
        memory::names_in_zip(archive) == Ok::<_, ZipErrorView>(names),
    ensures
        0 <= i < names.len() && package_laws::is_part_named(names[i], prefix) && (forall|j: int|
            0 <= j < i ==> !package_laws::is_part_named(#[trigger] names[j], prefix))
            ==> is_range_of(archive, names[i], range),
        (forall|j: int|
            0 <= j < names.len() ==> !package_laws::is_part_named(#[trigger] names[j], prefix)) ==> (
        range matches Err(ExtractError::MissingComponent)),
{
    assert forall|j: int| 0 <= j < names.len() implies (package::is_part(
        #[trigger] names[j],
        prefix,
    ) <==> package_laws::is_part_named(names[j], prefix)) by {
        package_laws::lemma_part(names[j], prefix);
    }
    if 0 <= i < names.len() && package_laws::is_part_named(names[i], prefix) && (forall|j: int|
        0 <= j < i ==> !package_laws::is_part_named(#[trigger] names[j], prefix)) {
        assert(package::is_first_part(names, prefix, i));
        let k = choose|k: int| package::is_first_part(names, prefix, k);
        package_laws::lemma_first_part(names, prefix, i, k);
    }
    if forall|j: int|
        0 <= j < names.len() ==> !package_laws::is_part_named(#[trigger] names[j], prefix) {
        assert forall|k: int| !package::is_first_part(names, prefix, k) by {
            if package::is_first_part(names, prefix, k) {
                assert(package::is_part(names[k], prefix));
            }
        }
    }
}

/// The metadata of a `.conda` package lies where its first file
/// `info-<anything>.tar.zst` lies, and its contents where its first file
/// `pkg-<anything>.tar.zst` lies.
pub proof fn law_parts_of_a_package(
    archive: &[u8],
    names: Seq<Seq<char>>,
    info: Result<ByteRange, ExtractError>,
    content: Result<ByteRange, ExtractError>,
    i: int,
)
    requires
        call_ensures(memory::stream_conda_info, (archive,), info),
        call_ensures(memory::stream_conda_content, (archive,), content),
        memory::names_in_zip(archive@) == Ok::<_, ZipErrorView>(names),
    ensures
        0 <= i < names.len() && package_laws::is_part_named(names[i], "info-"@) && (forall|j: int|
            0 <= j < i ==> !package_laws::is_part_named(#[trigger] names[j], "info-"@))
            ==> is_range_of(archive@, names[i], info),
        0 <= i < names.len() && package_laws::is_part_named(names[i], "pkg-"@) && (forall|j: int|
            0 <= j < i ==> !package_laws::is_part_named(#[trigger] names[j], "pkg-"@))
            ==> is_range_of(archive@, names[i], content),
        (forall|j: int|
            0 <= j < names.len() ==> !package_laws::is_part_named(#[trigger] names[j], "info-"@))
            ==> (info matches Err(ExtractError::MissingComponent)),
        (forall|j: int|
            0 <= j < names.len() ==> !package_laws::is_part_named(#[trigger] names[j], "pkg-"@))
            ==> (content matches Err(ExtractError::MissingComponent)),
{
    lemma_range(archive@, "info-"@, info, names, i);
    lemma_range(archive@, "pkg-"@, content, names, i);
}

/// Bytes that are no zip archive have no parts and no contents, for the reason
/// that they are none.
pub proof fn law_no_zip_archive(
    archive: &[u8],
    layout: Layout,
    info: Result<ByteRange, ExtractError>,
    content: Result<ByteRange, ExtractError>,
    entries: Result<Vec<WheelEntry>, ExtractError>,
    extracted: Result<(ExtractResult, Vec<WheelEntry>), ExtractError>,
)
    requires
        call_ensures(memory::stream_conda_info, (archive,), info),
        call_ensures(memory::stream_conda_content, (archive,), content),
        call_ensures(memory::extract_wheel_contents, (archive, layout), entries),
        call_ensures(memory::extract_wheel, (archive,), extracted),
    ensures
        memory::names_in_zip(archive@) matches Err(z) ==> {
            &&& info matches Err(ExtractError::ZipError(e)) && e@ == z
            &&& content matches Err(ExtractError::ZipError(e)) && e@ == z
            &&& entries matches Err(ExtractError::ZipError(e)) && e@ == z
            &&& extracted matches Err(ExtractError::ZipError(e)) && e@ == z
        },
{
}

/// Whether the thing at a place of a wheel can be opened and, if it is a file
/// with a safe name, read.
pub open spec fn can_be_taken(archive: Seq<u8>, i: nat) -> bool {
    match memory::member_of_zip(archive, i) {
        Ok(m) => m.relpath is None || m.is_dir || memory::contents_in_zip(archive, i) is Ok,
        Err(_) => false,
    }
}

/// Whether the thing at a place of a wheel is taken as it is: a file with a safe
/// name is written with what it holds, where the layout puts it, and nothing
/// else is done.
pub open spec fn is_taken(archive: Seq<u8>, layout: Layout, i: nat, entry: WheelEntry) -> bool {
    memory::member_of_zip(archive, i) matches Ok(m) && entry.unix_mode == m.unix_mode && if m.is_dir
        || m.relpath is None {
        entry.action == EntryAction::Skip && entry.contents is None
    } else {
        &&& entry.contents matches Some(data) && memory::contents_in_zip(archive, i) == Ok::<
            _,
            (Seq<char>, Seq<char>),
        >(data@)
        &&& entry.action matches EntryAction::WriteFile(out) && out@ == if layout
            == Layout::Archive {
            m.relpath->Some_0
        } else {
            category::installed_path(m.relpath->Some_0)
        }
    }
}

/// Whether an error is that of the thing at a place of a wheel.
pub open spec fn is_error_of(archive: Seq<u8>, i: nat, error: ExtractError) -> bool {
    match memory::member_of_zip(archive, i) {
        Err(z) => error matches ExtractError::ZipError(e) && e@ == z,
        Ok(_) => match memory::contents_in_zip(archive, i) {
            Err((kind, message)) => error matches ExtractError::IoError(e) && e.message@ == message
                && match e.kind {
                IoErrorKind::NotFound => kind == "NotFound"@,
                IoErrorKind::InvalidData => kind == "InvalidData"@,
                IoErrorKind::InvalidInput => kind == "InvalidInput"@,
                IoErrorKind::UnexpectedEof => kind == "UnexpectedEof"@,
                IoErrorKind::Other => kind != "NotFound"@ && kind != "InvalidData"@ && kind
                    != "InvalidInput"@ && kind != "UnexpectedEof"@,
            },
            Ok(_) => false,
        },
    }
}

/// What comes of the contents of a wheel.
proof fn lemma_contents(
    archive: Seq<u8>,
    layout: Layout,
    entries: Result<Seq<WheelEntry>, ExtractError>,
    names: Seq<Seq<char>>,
    i: nat,
)
    requires
        memory::is_extracted(archive, layout, entries),
        memory::names_in_zip(archive) == Ok::<_, ZipErrorView>(names),
    ensures
        (forall|j: nat| j < names.len() ==> #[trigger] can_be_taken(archive, j)) ==> (
        entries matches Ok(es) && es.len() == names.len() && forall|j: int|
            0 <= j < es.len() ==> is_taken(archive, layout, j as nat, #[trigger] es[j])),
        i < names.len() && !can_be_taken(archive, i) && (forall|j: nat|
            j < i ==> #[trigger] can_be_taken(archive, j)) ==> (entries matches Err(e)
            && is_error_of(archive, i, e)),
{
    assert forall|j: nat| #[trigger] can_be_taken(archive, j) == memory::is_extractable(
        archive,
        j,
    ) by {}
    match entries {
        Ok(es) => {
            assert forall|j: int| 0 <= j < es.len() implies is_taken(
                archive,
                layout,
                j as nat,
                #[trigger] es[j],
            ) by {
                assert(memory::is_wheel_entry(archive, layout, j as nat, es[j]));
            }
            if i < names.len() {
                assert(memory::is_wheel_entry(archive, layout, i, es[i as int]));
                assert(can_be_taken(archive, i));
            }
        },
        Err(e) => {
            let k = choose|k: nat| #[trigger]
                memory::is_first_error(archive, names.len(), k, e);
            assert(memory::is_first_error(archive, names.len(), k, e));
            assert(!can_be_taken(archive, k));
            if i < names.len() && !can_be_taken(archive, i) && (forall|j: nat|
                j < i ==> #[trigger] can_be_taken(archive, j)) {
                if i < k {
                    assert(memory::is_extractable(archive, i));
                }
                assert(i == k);
            }
        },
    }
}

/// A wheel of which everything can be taken is taken, each thing for itself and
/// in its order. Otherwise the first thing that cannot be taken is told.
pub proof fn law_wheel_contents(
    archive: &[u8],
    layout: Layout,
    entries: Result<Vec<WheelEntry>, ExtractError>,
    names: Seq<Seq<char>>,
    i: nat,
)
    requires
        call_ensures(memory::extract_wheel_contents, (archive, layout), entries),
        memory::names_in_zip(archive@) == Ok::<_, ZipErrorView>(names),
    ensures
        (forall|j: nat| j < names.len() ==> #[trigger] can_be_taken(archive@, j)) ==> (
        entries matches Ok(es) && es@.len() == names.len() && forall|j: int|
            0 <= j < es@.len() ==> is_taken(archive@, layout, j as nat, #[trigger] es@[j])),
        i < names.len() && !can_be_taken(archive@, i) && (forall|j: nat|
            j < i ==> #[trigger] can_be_taken(archive@, j)) ==> (entries matches Err(e)
            && is_error_of(archive@, i, e)),
{
    let seen = match entries {
        Ok(es) => Ok(es@),
        Err(e) => Err(e),
    };
    lemma_contents(archive@, layout, seen, names, i);
}

/// A wheel that is extracted is taken in the layout that its files have when
/// they are installed, with the hashes and the size of all its bytes.
pub proof fn law_extracted_wheel(
    archive: &[u8],
    extracted: Result<(ExtractResult, Vec<WheelEntry>), ExtractError>,
    names: Seq<Seq<char>>,
    i: nat,
)
    requires
        call_ensures(memory::extract_wheel, (archive,), extracted),
        memory::names_in_zip(archive@) == Ok::<_, ZipErrorView>(names),
    ensures
        (forall|j: nat| j < names.len() ==> #[trigger] can_be_taken(archive@, j)) ==> (
        extracted matches Ok((result, es)) && result.sha256@ == digest::sha256_of(archive@)
            && result.md5@ == digest::md5_of(archive@) && result.total_size == archive@.len()
            && es@.len() == names.len() && forall|j: int|
            0 <= j < es@.len() ==> is_taken(
                archive@,
                Layout::Installed,
                j as nat,
                #[trigger] es@[j],
            )),
        i < names.len() && !can_be_taken(archive@, i) && (forall|j: nat|
            j < i ==> #[trigger] can_be_taken(archive@, j)) ==> (extracted matches Err(e)
            && is_error_of(archive@, i, e)),
{
    let seen = match extracted {
        Ok((_, es)) => Ok(es@),
        Err(e) => Err(e),
    };
    lemma_contents(archive@, Layout::Installed, seen, names, i);
}

} // verus!
