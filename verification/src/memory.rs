//! Zip archives that are held in memory.
//!
//! An archive on disk is read piece by piece. One whose bytes are all there is
//! handled here from its first byte to what its files hold and where they go.
use crate::digest;
use crate::digest::ExtractResult;
use crate::error::{ExtractError, IoError, IoErrorKind, ZipError, ZipErrorView};
use crate::extraction;
use crate::extraction::{EntryAction, Layout, ListedDirs};
use crate::package;
use crate::package::{ByteRange, ZipEntryInfo};
use crate::record;
use crate::text;
use std::io::{Cursor, Read};
use vstd::prelude::*;
use vstd::string::*;

verus! {

/// The names in the directory of a zip archive, in the order of the directory,
/// or what is wrong with the archive.
pub uninterp spec fn names_in_zip(archive: Seq<u8>) -> Result<Seq<Seq<char>>, ZipErrorView>;

/// `zip::ZipArchive::new` on the bytes, and `file_names` of the archive: the
/// names that it lists, or an error if the bytes are no zip archive. Which
/// bytes are one, with which names or which error, is a function of the bytes
/// alone. Unsupported archives are told apart from other errors, which are
/// taken by their text.
#[verifier::external_body]
fn zip_names(archive: &[u8]) -> (names: Result<Vec<String>, ZipError>)
    ensures
        match names {
            Ok(listed) => names_in_zip(archive@) == Ok::<_, ZipErrorView>(
                record::string_views(listed@),
            ),
            Err(e) => names_in_zip(archive@) == Err::<Seq<Seq<char>>, _>(e@),
        },
{
    match zip::ZipArchive::new(Cursor::new(archive)) {
        Ok(opened) => Ok(opened.file_names().map(|name| name.to_owned()).collect()),
        Err(zip::result::ZipError::UnsupportedArchive(reason)) => Err(
            ZipError::UnsupportedArchive(reason.to_owned()),
        ),
        Err(e) => Err(ZipError::Other(e.to_string())),
    }
}

/// What a zip archive says of the file with a name, or what keeps the file from
/// being opened.
pub uninterp spec fn file_in_zip(archive: Seq<u8>, name: Seq<char>) -> Result<
    ZipEntryInfo,
    ZipErrorView,
>;

/// `zip::ZipArchive::new` on the bytes, and `by_name` of the archive: how the
/// file with the name is stored, or an error if the bytes are no zip archive
/// or the file cannot be opened. It is a function of the bytes and the name
/// alone. A file that was opened has its `data_start` set.
#[verifier::external_body]
fn zip_file(archive: &[u8], name: &str) -> (info: Result<ZipEntryInfo, ZipError>)
    ensures
        match info {
            Ok(entry) => file_in_zip(archive@, name@) == Ok::<_, ZipErrorView>(entry),
            Err(e) => file_in_zip(archive@, name@) == Err::<ZipEntryInfo, _>(e@),
        },
{
    let open = || -> Result<ZipEntryInfo, zip::result::ZipError> {
        let mut opened = zip::ZipArchive::new(Cursor::new(archive))?;
        let entry = opened.by_name(name)?;
        let stored = matches!(entry.compression(), zip::CompressionMethod::Stored);
        let data_start = entry.data_start().expect("an opened file has a place");
        Ok(ZipEntryInfo { stored, data_start, size: entry.size() })
    };
    open().map_err(|e| match e {
        zip::result::ZipError::UnsupportedArchive(m) => ZipError::UnsupportedArchive(m.to_owned()),
        e => ZipError::Other(e.to_string()),
    })
}

/// What a zip archive says of something in it.
#[derive(Debug, Clone, PartialEq, Eq)]
pub struct ZipMember {
    /// Its name.
    pub name: String,
    /// The safe path that its name stands for.
    pub relpath: Option<String>,
    /// Whether it is a directory.
    pub is_dir: bool,
    /// The Unix mode of it.
    pub unix_mode: Option<u32>,
}

/// What a member of a zip archive says.
#[verifier::ext_equal]
pub struct MemberView {
    /// Its name.
    pub name: Seq<char>,
    /// The safe path that its name stands for.
    pub relpath: Option<Seq<char>>,
    /// Whether it is a directory.
    pub is_dir: bool,
    /// The Unix mode of it.
    pub unix_mode: Option<u32>,
}

impl View for ZipMember {
    type V = MemberView;

    open spec fn view(&self) -> MemberView {
        MemberView {
            name: self.name@,
            relpath: match self.relpath {
                Some(p) => Some(p@),
                None => None,
            },
            is_dir: self.is_dir,
            unix_mode: self.unix_mode,
        }
    }
}

/// A name in the form of Windows that is taken as it is: it begins with two
/// backslashes, a question mark and a backslash.
pub open spec fn is_verbatim(name: Seq<char>) -> bool {
    seq!['\\', '\\', '?', '\\'].is_prefix_of(name)
}

/// What a zip archive says of the thing at a place in its directory, or what
/// keeps it from being opened.
pub uninterp spec fn member_of_zip(archive: Seq<u8>, index: nat) -> Result<
    MemberView,
    ZipErrorView,
>;

/// `zip::ZipArchive::new` on the bytes, and `by_index` of the archive: the
/// `name` of what is at that place in the directory, its `enclosed_name`,
/// whether it `is_dir`, and its `unix_mode`; or an error if the bytes are no
/// zip archive or it cannot be opened. It is a function of the bytes and the
/// place alone. The enclosed name, if there is one, is made of the names of a
/// path alone. That is left unsaid of a verbatim name, of which the crate does
/// not take a slash for a separator.
#[verifier::external_body]
fn zip_member(archive: &[u8], index: usize) -> (member: Result<ZipMember, ZipError>)
    ensures
        match member {
            Ok(m) => member_of_zip(archive@, index as nat) == Ok::<_, ZipErrorView>(m@),
            Err(e) => member_of_zip(archive@, index as nat) == Err::<MemberView, _>(e@),
        },
        member matches Ok(m) ==> match m@.relpath {
            Some(relpath) => is_verbatim(m@.name) || extraction::stays_inside(relpath),
            None => true,
        },
{
    let open = || -> Result<ZipMember, zip::result::ZipError> {
        let mut opened = zip::ZipArchive::new(Cursor::new(archive))?;
        let entry = opened.by_index(index)?;
        let (is_dir, unix_mode) = (entry.is_dir(), entry.unix_mode());
        let relpath = entry.enclosed_name().map(|p| p.to_string_lossy().into_owned());
        Ok(ZipMember { name: entry.name().to_owned(), relpath, is_dir, unix_mode })
    };
    open().map_err(|e| match e {
        zip::result::ZipError::UnsupportedArchive(m) => ZipError::UnsupportedArchive(m.to_owned()),
        e => ZipError::Other(e.to_string()),
    })
}

/// What the file at a place in the directory of a zip archive holds, or the
/// kind and the text of what keeps it from being read.
pub uninterp spec fn contents_in_zip(archive: Seq<u8>, index: nat) -> Result<
    Seq<u8>,
    (Seq<char>, Seq<char>),
>;

/// `zip::ZipArchive::new` on the bytes, `by_index` of the archive, and
/// everything that can be read from the file at that place, uncompressed; or
/// the error that reading it gives, by the name that `Debug` writes for its kind
/// and by its text. It is a function of the bytes and the place alone.
#[verifier::external_body]
fn zip_contents(archive: &[u8], index: usize) -> (contents: Result<Vec<u8>, (String, String)>)
    ensures
        match contents {
            Ok(data) => contents_in_zip(archive@, index as nat) == Ok::<
                _,
                (Seq<char>, Seq<char>),
            >(data@),
            Err((kind, message)) => contents_in_zip(archive@, index as nat) == Err::<Seq<u8>, _>(
                (kind@, message@),
            ),
        },
{
    let read = || -> Result<Vec<u8>, std::io::Error> {
        let mut opened = zip::ZipArchive::new(Cursor::new(archive))?;
        let mut data = Vec::new();
        opened.by_index(index)?.read_to_end(&mut data)?;
        Ok(data)
    };
    read().map_err(|e| (format!("{:?}", e.kind()), e.to_string()))
}

/// The kind of failed input or output that has the given name.
pub open spec fn kind_named(name: Seq<char>) -> IoErrorKind {
    if name == "NotFound"@ {
        IoErrorKind::NotFound
    } else if name == "InvalidData"@ {
        IoErrorKind::InvalidData
    } else if name == "InvalidInput"@ {
        IoErrorKind::InvalidInput
    } else if name == "UnexpectedEof"@ {
        IoErrorKind::UnexpectedEof
    } else {
        IoErrorKind::Other
    }
}

/// The failure to read a file, by the name of its kind and its text.
pub fn read_error(kind: &str, message: String) -> (error: ExtractError)
    ensures
        error matches ExtractError::IoError(e) && e.says(kind_named(kind@), message@),
{
    let name = text::to_chars(kind);
    let kind = if text::is_text(name.as_slice(), "NotFound") {
        IoErrorKind::NotFound
    } else if text::is_text(name.as_slice(), "InvalidData") {
        IoErrorKind::InvalidData
    } else if text::is_text(name.as_slice(), "InvalidInput") {
        IoErrorKind::InvalidInput
    } else if text::is_text(name.as_slice(), "UnexpectedEof") {
        IoErrorKind::UnexpectedEof
    } else {
        IoErrorKind::Other
    };
    ExtractError::IoError(IoError { kind, message })
}

/// Whether an error is that of a zip archive.
pub open spec fn is_zip_error(error: ExtractError, e: ZipErrorView) -> bool {
    error matches ExtractError::ZipError(z) && z@ == e
}

/// Where a part of a `.conda` package that is held in memory lies: the first
/// one with the given beginning, which has to be stored as it is.
pub open spec fn is_part_range(
    archive: Seq<u8>,
    prefix: Seq<char>,
    range: Result<ByteRange, ExtractError>,
) -> bool {
    match names_in_zip(archive) {
        Err(z) => range matches Err(e) && is_zip_error(e, z),
        Ok(names) => if exists|i: int| package::is_first_part(names, prefix, i) {
            let i = choose|i: int| package::is_first_part(names, prefix, i);
            match file_in_zip(archive, names[i]) {
                Err(z) => range matches Err(e) && is_zip_error(e, z),
                Ok(entry) => if entry.stored {
                    range matches Ok(r) && r.offset == entry.data_start && r.size == entry.size
                } else {
                    range matches Err(e) && e == ExtractError::UnsupportedCompressionMethod
                },
            }
        } else {
            range matches Err(e) && e == ExtractError::MissingComponent
        },
    }
}

/// Finds where a part of a `.conda` package lies, given which of the names in
/// the package is that of the part.
fn part_range(archive: &[u8], names: &Vec<String>, found: Result<usize, ExtractError>) -> (range:
    Result<ByteRange, ExtractError>)
    requires
        found matches Ok(i) ==> i < names@.len(),
    ensures
        match found {
            Err(e) => range == Err::<ByteRange, _>(e),
            Ok(i) => match file_in_zip(archive@, names@[i as int]@) {
                Err(z) => range matches Err(e) && is_zip_error(e, z),
                Ok(entry) => if entry.stored {
                    range matches Ok(r) && r.offset == entry.data_start && r.size == entry.size
                } else {
                    range matches Err(e) && e == ExtractError::UnsupportedCompressionMethod
                },
            },
        },
{
    match found {
        Err(e) => Err(e),
        Ok(i) => match zip_file(archive, names[i].as_str()) {
            Err(e) => Err(ExtractError::ZipError(e)),
            Ok(entry) => package::stream_conda_zip_entry(entry),
        },
    }
}

/// There is one first part at most.
proof fn lemma_first_part(names: Seq<Seq<char>>, prefix: Seq<char>, i: int, j: int)
    requires
        package::is_first_part(names, prefix, i),
        package::is_first_part(names, prefix, j),
    ensures
        i == j,
{
    if i < j {
        assert(!package::is_part(names[i], prefix));
    } else if j < i {
        assert(!package::is_part(names[j], prefix));
    }
}

/// Finds where the metadata of a `.conda` package lies, a compressed tar
/// archive.
pub fn stream_conda_info(archive: &[u8]) -> (range: Result<ByteRange, ExtractError>)
    ensures
        is_part_range(archive@, "info-"@, range),
{
    match zip_names(archive) {
        Err(e) => Err(ExtractError::ZipError(e)),
        Ok(names) => {
            let found = package::stream_conda_info(&names);
            proof {
                lemma_found(record::string_views(names@), "info-"@, found);
            }
            part_range(archive, &names, found)
        },
    }
}

/// Finds where the contents of a `.conda` package lie, a compressed tar
/// archive.
pub fn stream_conda_content(archive: &[u8]) -> (range: Result<ByteRange, ExtractError>)
    ensures
        is_part_range(archive@, "pkg-"@, range),
{
    match zip_names(archive) {
        Err(e) => Err(ExtractError::ZipError(e)),
        Ok(names) => {
            let found = package::stream_conda_content(&names);
            proof {
                lemma_found(record::string_views(names@), "pkg-"@, found);
            }
            part_range(archive, &names, found)
        },
    }
}

/// What was found is the first part, and nothing was found only if there is
/// none.
proof fn lemma_found(names: Seq<Seq<char>>, prefix: Seq<char>, found: Result<usize, ExtractError>)
    requires
        match found {
            Ok(i) => package::is_first_part(names, prefix, i as int),
            Err(_) => forall|j: int|
                0 <= j < names.len() ==> !package::is_part(#[trigger] names[j], prefix),
        },
    ensures
        found is Ok <==> exists|i: int| package::is_first_part(names, prefix, i),
        found matches Ok(i) ==> i == choose|i: int| package::is_first_part(names, prefix, i),
{
    match found {
        Ok(i) => {
            let j = choose|j: int| package::is_first_part(names, prefix, j);
            lemma_first_part(names, prefix, i as int, j);
        },
        Err(_) => {},
    }
}

/// Something in a wheel that is held in memory.
#[derive(Debug, Clone, PartialEq, Eq)]
pub struct WheelEntry {
    /// What is done with it.
    pub action: EntryAction,
    /// What the file holds, if one is written.
    pub contents: Option<Vec<u8>>,
    /// The Unix mode that it has afterwards, if the archive gives one.
    pub unix_mode: Option<u32>,
}

/// Whether something in an archive is a file that is written.
pub open spec fn is_written(member: MemberView) -> bool {
    member.relpath is Some && !member.is_dir
}

/// What is done with the thing at a place in a wheel that is held in memory: a
/// file is written with its uncompressed contents.
pub open spec fn is_wheel_entry(
    archive: Seq<u8>,
    layout: Layout,
    i: nat,
    entry: WheelEntry,
) -> bool {
    member_of_zip(archive, i) matches Ok(member) && {
        &&& extraction::is_entry_action(
            entry.action,
            layout,
            ListedDirs::Pass,
            member.relpath,
            member.is_dir,
        )
        &&& entry.unix_mode == member.unix_mode
        &&& if is_written(member) {
            entry.contents matches Some(data) && contents_in_zip(archive, i) == Ok::<
                _,
                (Seq<char>, Seq<char>),
            >(data@)
        } else {
            entry.contents is None
        }
    }
}

/// Whether the thing at a place in a wheel can be opened and, if it is a file
/// that is written, read.
pub open spec fn is_extractable(archive: Seq<u8>, i: nat) -> bool {
    member_of_zip(archive, i) matches Ok(member) && (is_written(member) ==> contents_in_zip(
        archive,
        i,
    ) is Ok)
}

/// Whether an error is that of the thing at a place in a wheel, which cannot be
/// opened or read.
pub open spec fn is_member_error(archive: Seq<u8>, i: nat, error: ExtractError) -> bool {
    match member_of_zip(archive, i) {
        Err(z) => is_zip_error(error, z),
        Ok(member) => is_written(member) && match contents_in_zip(archive, i) {
            Err((kind, message)) => error matches ExtractError::IoError(e) && e.says(
                kind_named(kind),
                message,
            ),
            Ok(_) => false,
        },
    }
}

/// Whether an error is that of the first thing in a wheel that cannot be opened
/// or read.
pub open spec fn is_first_error(archive: Seq<u8>, len: nat, i: nat, error: ExtractError) -> bool {
    &&& i < len
    &&& forall|j: nat| j < i ==> #[trigger] is_extractable(archive, j)
    &&& is_member_error(archive, i, error)
}

/// What comes of the contents of a wheel that is held in memory: what is done
/// with each thing in it, or the first error.
pub open spec fn is_extracted(
    archive: Seq<u8>,
    layout: Layout,
    entries: Result<Seq<WheelEntry>, ExtractError>,
) -> bool {
    match (names_in_zip(archive), entries) {
        (Err(z), Err(e)) => is_zip_error(e, z),
        (Err(_), Ok(_)) => false,
        (Ok(names), Ok(es)) => {
            &&& es.len() == names.len()
            &&& forall|i: int|
                0 <= i < es.len() ==> is_wheel_entry(archive, layout, i as nat, #[trigger] es[i])
        },
        (Ok(names), Err(e)) => exists|i: nat| #[trigger]
            is_first_error(archive, names.len(), i, e),
    }
}

/// Whether a file is put inside the directory to unpack to, unless its name is
/// verbatim.
pub open spec fn is_put_inside(archive: Seq<u8>, i: nat, entry: WheelEntry) -> bool {
    entry.action matches EntryAction::WriteFile(p) ==> match member_of_zip(archive, i) {
        Ok(member) => is_verbatim(member.name) || extraction::stays_inside(p@),
        Err(_) => false,
    }
}

/// Decides what is done with each thing in a wheel. Files are written where the
/// layout puts them, with what they hold; directories and unsafe names are
/// passed over.
pub fn extract_wheel_contents(archive: &[u8], layout: Layout) -> (entries: Result<
    Vec<WheelEntry>,
    ExtractError,
>)
    ensures
        is_extracted(
            archive@,
            layout,
            match entries {
                Ok(es) => Ok(es@),
                Err(e) => Err(e),
            },
        ),
        entries matches Ok(es) ==> forall|i: int|
            0 <= i < es@.len() ==> is_put_inside(archive@, i as nat, #[trigger] es@[i]),
{
    let names = match zip_names(archive) {
        Err(e) => {
            return Err(ExtractError::ZipError(e));
        },
        Ok(names) => names,
    };
    let ghost len = names@.len();
    assert(record::string_views(names@).len() == len);
    let mut entries: Vec<WheelEntry> = Vec::new();
    for i in 0..names.len()
        invariant
            names_in_zip(archive@) matches Ok(listed) && listed.len() == names@.len(),
            len == names@.len(),
            entries@.len() == i,
            forall|k: nat| k < i ==> #[trigger] is_extractable(archive@, k),
            forall|k: int|
                0 <= k < entries@.len() ==> is_wheel_entry(
                    archive@,
                    layout,
                    k as nat,
                    #[trigger] entries@[k],
                ),
            forall|k: int|
                0 <= k < entries@.len() ==> is_put_inside(
                    archive@,
                    k as nat,
                    #[trigger] entries@[k],
                ),
    {
        let member = match zip_member(archive, i) {
            Err(e) => {
                let error = ExtractError::ZipError(e);
                assert(is_first_error(archive@, len, i as nat, error));
                return Err(error);
            },
            Ok(member) => member,
        };
        let relpath = match &member.relpath {
            Some(p) => Some(p.as_str()),
            None => None,
        };
        let contents = if member.relpath.is_some() && !member.is_dir {
            match zip_contents(archive, i) {
                Err((kind, message)) => {
                    let error = read_error(kind.as_str(), message);
                    assert(is_first_error(archive@, len, i as nat, error));
                    return Err(error);
                },
                Ok(data) => Some(data),
            }
        } else {
            None
        };
        proof {
            assert(is_extractable(archive@, i as nat));
            match member@.relpath {
                Some(p) => {
                    if extraction::stays_inside(p) {
                        extraction::law_layouts_stay_inside(layout, p);
                    }
                },
                None => {},
            }
        }
        let action = extraction::entry_action(layout, ListedDirs::Pass, relpath, member.is_dir);
        entries.push(WheelEntry { action, contents, unix_mode: member.unix_mode });
    }
    Ok(entries)
}

/// Takes the hashes and the size of a wheel and decides what is done with each
/// thing in it. Files are written where they are installed.
pub fn extract_wheel(archive: &[u8]) -> (extracted: Result<
    (ExtractResult, Vec<WheelEntry>),
    ExtractError,
>)
    requires
        archive@.len() < 0x2000_0000_0000_0000,
    ensures
        is_extracted(
            archive@,
            Layout::Installed,
            match extracted {
                Ok((_, es)) => Ok(es@),
                Err(e) => Err(e),
            },
        ),
        extracted matches Ok((result, es)) ==> digest::is_result_of(result, archive@)
            && forall|i: int|
            0 <= i < es@.len() ==> is_put_inside(archive@, i as nat, #[trigger] es@[i]),
{
    let result = digest::hash_and_size(archive);
    match extract_wheel_contents(archive, Layout::Installed) {
        Ok(entries) => Ok((result, entries)),
        Err(e) => Err(e),
    }
}

} // verus!
