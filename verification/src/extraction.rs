//! How archives are unpacked.
//!
//! The cache of wheels holds each wheel in the layout of its archive, the way
//! `unzip` would unpack it. A wheel can also be unpacked in the layout that its
//! files have when they are installed.
use crate::category;
use crate::error::{ExtractError, IoError, IoErrorKind, ZipError};
use crate::path;
use crate::path::PathComponent;
use crate::text;
use std::collections::HashMap;
use vstd::prelude::*;
use vstd::string::*;

verus! {

broadcast use vstd::std_specs::hash::group_hash_axioms;

/// The layout that a wheel is unpacked in.
#[derive(Debug, Clone, Copy, PartialEq, Eq, Structural)]
pub enum Layout {
    /// Every file where it is in the archive.
    Archive,
    /// Every file where it is installed, with `site-packages` and
    /// `python-scripts` as directories.
    Installed,
}

/// Where a file of a wheel is put, relative to the directory that the wheel is
/// unpacked to.
pub open spec fn unpacked_path(layout: Layout, archive_path: Seq<char>) -> Seq<char> {
    match layout {
        Layout::Archive => archive_path,
        Layout::Installed => category::installed_path(archive_path),
    }
}

/// Decides where a file of a wheel is put.
pub fn out_path(layout: Layout, archive_path: &str) -> (out: String)
    ensures
        out@ == unpacked_path(layout, archive_path@),
{
    match layout {
        Layout::Archive => archive_path.to_owned(),
        Layout::Installed => category::map_wheel_archive_path(archive_path),
    }
}

/// What a path comes to when every `..` takes back the name before it. A path
/// that takes back more than it has, or starts at the root, comes to nothing.
pub open spec fn resolved(cs: Seq<PathComponent<Seq<char>>>) -> Option<
    Seq<PathComponent<Seq<char>>>,
>
    decreases cs.len(),
{
    if cs.len() == 0 {
        Some(seq![])
    } else {
        match resolved(cs.drop_last()) {
            Some(names) => match cs.last() {
                PathComponent::RootDir => None,
                PathComponent::CurDir => Some(names),
                PathComponent::ParentDir => if names.len() > 0 {
                    Some(names.drop_last())
                } else {
                    None
                },
                PathComponent::Normal(_) => Some(names.push(cs.last())),
            },
            None => None,
        }
    }
}

/// The path inside the directory to unpack to that the name of a file in an
/// archive stands for, if it is safe to use.
pub open spec fn enclosed_path(name: Seq<char>) -> Option<Seq<char>> {
    if name.contains('\0') {
        None
    } else {
        match resolved(path::path_components(name)) {
            Some(names) => Some(path::written(names)),
            None => None,
        }
    }
}

/// Once a path has come to nothing, more components do not help.
proof fn lemma_resolved_none(cs: Seq<PathComponent<Seq<char>>>, n: int)
    requires
        0 <= n <= cs.len(),
        resolved(cs.take(n)) is None,
    ensures
        resolved(cs) is None,
    decreases cs.len(),
{
    if n < cs.len() {
        assert(cs.drop_last().take(n) == cs.take(n));
        lemma_resolved_none(cs.drop_last(), n);
    } else {
        assert(cs.take(n) == cs);
    }
}

/// Turns the name of a file in an archive into a path inside the directory to
/// unpack to. Names that would lead out of it give none.
pub fn sanitize_zip_entry_name(name: &str) -> (relpath: Option<String>)
    ensures
        match relpath {
            Some(p) => enclosed_path(name@) == Some(p@),
            None => enclosed_path(name@) is None,
        },
{
    let chars = text::to_chars(name);
    proof {
        text::lemma_position(name@, '\0');
    }
    let nul = text::find_char(chars.as_slice(), '\0');
    if nul < chars.len() {
        assert(name@[nul as int] == '\0');
        return None;
    }
    assert(!name@.contains('\0')) by {
        if name@.contains('\0') {
            let k = choose|k: int| 0 <= k < name@.len() && name@[k] == '\0';
            assert(name@[k] != '\0');
        }
    }
    let cs = path::components(chars.as_slice());
    let ghost all = path::component_views(cs@);
    let mut names: Vec<PathComponent<&[char]>> = Vec::new();
    assert(path::component_views(names@) == Seq::<PathComponent<Seq<char>>>::empty());
    for i in 0..cs.len()
        invariant
            all == path::component_views(cs@),
            all == path::path_components(name@),
            !name@.contains('\0'),
            resolved(all.take(i as int)) == Some(path::component_views(names@)),
    {
        let ghost before = names@;
        proof {
            assert(all[i as int] == path::component_view(cs@[i as int]));
            assert(all.take(i + 1).drop_last() == all.take(i as int));
            assert(all.take(i + 1).last() == all[i as int]);
        }
        match &cs[i] {
            PathComponent::RootDir => {
                proof {
                    lemma_resolved_none(all, i + 1);
                }
                return None;
            },
            PathComponent::CurDir => {},
            PathComponent::ParentDir => {
                if names.len() == 0 {
                    proof {
                        lemma_resolved_none(all, i + 1);
                    }
                    return None;
                }
                names.pop();
                assert(path::component_views(names@) == path::component_views(
                    before,
                ).drop_last());
            },
            PathComponent::Normal(segment) => {
                names.push(PathComponent::Normal(segment));
                assert(path::component_views(names@) == path::component_views(before).push(
                    all[i as int],
                ));
            },
        }
    }
    assert(all.take(all.len() as int) == all);
    assert(path::component_views(names@).skip(0) == path::component_views(names@));
    Some(path::write_components(&names, 0))
}

/// What a path comes to is made of names of that path.
proof fn lemma_resolved_names(cs: Seq<PathComponent<Seq<char>>>)
    requires
        forall|k: int|
            0 <= k < cs.len() ==> path::is_named(#[trigger] cs[k]) || cs[k] is CurDir || cs[k] is RootDir,
    ensures
        resolved(cs) matches Some(names) ==> forall|k: int|
            0 <= k < names.len() ==> (#[trigger] names[k]) is Normal && path::is_named(names[k]),
    decreases cs.len(),
{
    if cs.len() > 0 {
        let shorter = cs.drop_last();
        assert forall|k: int| 0 <= k < shorter.len() implies path::is_named(#[trigger] shorter[k])
            || shorter[k] is CurDir || shorter[k] is RootDir by {
            assert(shorter[k] == cs[k]);
        }
        lemma_resolved_names(shorter);
        assert(cs.last() == cs[cs.len() - 1]);
    }
}

/// A path made of names alone, which does not lead out of where it starts.
pub open spec fn stays_inside(relpath: Seq<char>) -> bool {
    &&& !path::is_absolute(relpath)
    &&& forall|k: int|
        0 <= k < path::path_components(relpath).len() ==> (#[trigger] path::path_components(
            relpath,
        )[k]) is Normal
}

/// What the components of a name come to is made of names alone.
pub proof fn lemma_enclosed_names(name: Seq<char>)
    ensures
        resolved(path::path_components(name)) matches Some(names) ==> forall|k: int|
            0 <= k < names.len() ==> (#[trigger] names[k]) is Normal && path::is_named(names[k]),
        path::is_absolute(name) ==> resolved(path::path_components(name)) is None,
{
    let cs = path::path_components(name);
    if !path::is_absolute(name) {
        path::lemma_relative_components(name);
        let named = path::without_cur_dir(cs);
        assert forall|k: int| 0 <= k < cs.len() implies path::is_named(#[trigger] cs[k])
            || cs[k] is CurDir || cs[k] is RootDir by {
            if cs[0] is CurDir {
                if k > 0 {
                    assert(cs[k] == named[k - 1]);
                }
            } else {
                assert(cs[k] == named[k]);
            }
        }
        lemma_resolved_names(cs);
    } else {
        assert(resolved(cs.take(1)) is None) by {
            assert(cs.take(1).last() is RootDir);
        }
        lemma_resolved_none(cs, 1);
    }
}

/// What a safe name stands for is made of names alone.
proof fn lemma_enclosed(name: Seq<char>)
    ensures
        enclosed_path(name) matches Some(relpath) ==> stays_inside(relpath),
{
    lemma_enclosed_names(name);
    match resolved(path::path_components(name)) {
        Some(names) => {
            path::lemma_written_components(names);
        },
        None => {},
    }
}

/// A safe path stays safe in either layout.
pub proof fn law_layouts_stay_inside(layout: Layout, relpath: Seq<char>)
    requires
        stays_inside(relpath),
    ensures
        stays_inside(unpacked_path(layout, relpath)),
{
    category::law_names_stay_inside(relpath);
}

/// No file of a wheel is put outside of the directory that the wheel is
/// unpacked to, in either layout, whatever name it has in the archive.
pub proof fn law_unpacking_stays_inside(layout: Layout, name: Seq<char>)
    ensures
        enclosed_path(name) matches Some(relpath) ==> stays_inside(
            unpacked_path(layout, relpath),
        ),
{
    lemma_enclosed(name);
    match enclosed_path(name) {
        Some(relpath) => {
            law_layouts_stay_inside(layout, relpath);
        },
        None => {},
    }
}

/// A path made of names alone comes to itself.
proof fn lemma_resolved_same(cs: Seq<PathComponent<Seq<char>>>)
    requires
        forall|k: int| 0 <= k < cs.len() ==> (#[trigger] cs[k]) is Normal,
    ensures
        resolved(cs) == Some(cs),
    decreases cs.len(),
{
    if cs.len() == 0 {
        assert(cs == Seq::<PathComponent<Seq<char>>>::empty());
    } else {
        let shorter = cs.drop_last();
        assert forall|k: int| 0 <= k < shorter.len() implies (#[trigger] shorter[k]) is Normal by {
            assert(shorter[k] == cs[k]);
        }
        lemma_resolved_same(shorter);
        assert(cs.last() == cs[cs.len() - 1]);
        assert(shorter.push(cs.last()) == cs);
    }
}

/// A file whose name is a path made of names alone is unpacked, to a path with
/// the same components.
pub proof fn law_plain_names_are_kept(name: Seq<char>)
    requires
        stays_inside(name),
        !name.contains('\0'),
    ensures
        enclosed_path(name) matches Some(relpath) && path::path_components(relpath)
            == path::path_components(name),
{
    let cs = path::path_components(name);
    lemma_resolved_same(cs);
    path::lemma_relative_components(name);
    let named = path::without_cur_dir(cs);
    assert(named == cs) by {
        if cs.len() > 0 {
            assert(cs[0] is Normal);
        }
    }
    path::lemma_written_components(cs);
}

/// What is done with directories that an archive lists.
#[derive(Debug, Clone, Copy, PartialEq, Eq, Structural)]
pub enum ListedDirs {
    /// Nothing: the directories of the files are made anyway.
    Pass,
    /// They are made.
    Make,
}

/// What is done with something in an archive.
#[derive(Debug, Clone, PartialEq, Eq)]
pub enum EntryAction {
    /// It is passed over.
    Skip,
    /// The directory is made, with those it is in.
    MakeDir(String),
    /// The file is written, and the directories it is in are made.
    WriteFile(String),
}

/// What is done with something in a wheel archive: unsafe names are passed
/// over, files are written where the layout puts them.
pub open spec fn is_entry_action(
    action: EntryAction,
    layout: Layout,
    dirs: ListedDirs,
    relpath: Option<Seq<char>>,
    is_dir: bool,
) -> bool {
    match relpath {
        None => action == EntryAction::Skip,
        Some(p) => if !is_dir {
            action matches EntryAction::WriteFile(out) && out@ == unpacked_path(layout, p)
        } else if dirs == ListedDirs::Make {
            action matches EntryAction::MakeDir(out) && out@ == unpacked_path(layout, p)
        } else {
            action == EntryAction::Skip
        },
    }
}

/// The text of an optional path.
pub open spec fn path_view(relpath: Option<&str>) -> Option<Seq<char>> {
    match relpath {
        Some(p) => Some(p@),
        None => None,
    }
}

/// Decides what is done with something in a wheel archive, given the safe path
/// that its name stands for, if there is one.
pub fn entry_action(
    layout: Layout,
    dirs: ListedDirs,
    relpath: Option<&str>,
    is_dir: bool,
) -> (action: EntryAction)
    ensures
        is_entry_action(action, layout, dirs, path_view(relpath), is_dir),
{
    match relpath {
        None => EntryAction::Skip,
        Some(p) => if !is_dir {
            EntryAction::WriteFile(out_path(layout, p))
        } else if dirs == ListedDirs::Make {
            EntryAction::MakeDir(out_path(layout, p))
        } else {
            EntryAction::Skip
        },
    }
}

/// Something on disk.
#[verifier::ext_equal]
pub enum Node {
    /// A directory.
    Dir,
    /// A file with its contents.
    File(Seq<u8>),
}

/// What lies on disk once an action was done with something in an archive, by
/// the paths in the directory that is unpacked to.
pub open spec fn after_action(
    tree: Map<Seq<char>, Node>,
    action: EntryAction,
    contents: Seq<u8>,
) -> Map<Seq<char>, Node> {
    match action {
        EntryAction::Skip => tree,
        EntryAction::MakeDir(p) => if tree.contains_key(p@) {
            tree
        } else {
            tree.insert(p@, Node::Dir)
        },
        EntryAction::WriteFile(p) => tree.insert(p@, Node::File(contents)),
    }
}

/// What lies on disk once actions were done with the things in an archive, one
/// after the other.
pub open spec fn unpacked_tree(actions: Seq<EntryAction>, contents: Seq<Seq<u8>>) -> Map<
    Seq<char>,
    Node,
>
    decreases actions.len(),
{
    if actions.len() == 0 {
        Map::empty()
    } else {
        after_action(
            unpacked_tree(actions.drop_last(), contents),
            actions.last(),
            contents[actions.len() - 1],
        )
    }
}

/// Whether actions are those for the things in a wheel archive, in the layout
/// of the archive: one for each path and whether it is that of a directory.
pub open spec fn unpack_archive_layout(
    actions: Seq<EntryAction>,
    entries: Seq<(Option<Seq<char>>, bool)>,
) -> bool {
    &&& actions.len() == entries.len()
    &&& forall|i: int|
        0 <= i < actions.len() ==> is_entry_action(
            #[trigger] actions[i],
            Layout::Archive,
            ListedDirs::Make,
            entries[i].0,
            entries[i].1,
        )
}

/// A wheel leaves the same behind on disk, whether it is unpacked while it is
/// read or from a buffer.
pub proof fn law_both_ways_unpack_the_same(
    entries: Seq<(Option<Seq<char>>, bool)>,
    contents: Seq<Seq<u8>>,
    streamed: Seq<EntryAction>,
    buffered: Seq<EntryAction>,
)
    requires
        unpack_archive_layout(streamed, entries),
        unpack_archive_layout(buffered, entries),
    ensures
        unpacked_tree(streamed, contents) == unpacked_tree(buffered, contents),
    decreases entries.len(),
{
    if entries.len() > 0 {
        let n = entries.len() - 1;
        assert(streamed[n] == streamed.last());
        assert(buffered[n] == buffered.last());
        assert forall|i: int| 0 <= i < n implies is_entry_action(
            #[trigger] streamed.drop_last()[i],
            Layout::Archive,
            ListedDirs::Make,
            entries.drop_last()[i].0,
            entries.drop_last()[i].1,
        ) by {
            assert(streamed.drop_last()[i] == streamed[i]);
        }
        assert forall|i: int| 0 <= i < n implies is_entry_action(
            #[trigger] buffered.drop_last()[i],
            Layout::Archive,
            ListedDirs::Make,
            entries.drop_last()[i].0,
            entries.drop_last()[i].1,
        ) by {
            assert(buffered.drop_last()[i] == buffered[i]);
        }
        law_both_ways_unpack_the_same(
            entries.drop_last(),
            contents,
            streamed.drop_last(),
            buffered.drop_last(),
        );
    }
}

/// Something in an archive that is read from front to back.
#[verifier::ext_equal]
pub struct StreamedEntry {
    /// The safe path that its name stands for.
    pub relpath: Option<Seq<char>>,
    /// Whether it is a directory.
    pub is_dir: bool,
    /// Where its header is in the archive.
    pub file_offset: u64,
}

/// Whether something is a file that is written.
pub open spec fn is_written(entry: StreamedEntry) -> bool {
    entry.relpath is Some && !entry.is_dir
}

/// The files that were written, by where their headers are in the archive, once
/// there was another entry.
pub open spec fn written_with(written: Map<u64, Seq<char>>, entry: StreamedEntry) -> Map<
    u64,
    Seq<char>,
> {
    if is_written(entry) {
        written.insert(entry.file_offset, entry.relpath->0)
    } else {
        written
    }
}

/// The files that were written after some entries, by where their headers are
/// in the archive.
pub open spec fn written_after(entries: Seq<StreamedEntry>) -> Map<u64, Seq<char>>
    decreases entries.len(),
{
    if entries.len() == 0 {
        Map::empty()
    } else {
        written_with(written_after(entries.drop_last()), entries.last())
    }
}

/// The unpacking of a wheel that is read from front to back.
///
/// Which files are executable stands in the directory at the end of the
/// archive only. So what was written is kept in mind, by where each file is in
/// the archive, until the directory has been read.
pub struct StreamedWheel {
    paths: HashMap<u64, String>,
}

impl View for StreamedWheel {
    type V = Map<u64, Seq<char>>;

    /// The paths of the files that were written, by where their headers are in
    /// the archive.
    closed spec fn view(&self) -> Map<u64, Seq<char>> {
        self.paths@.map_values(|p: String| p@)
    }
}

/// What is read of the directory at the end of an archive.
#[derive(Debug, Clone, PartialEq, Eq)]
pub enum DirectoryEvent {
    /// The file with its header at the given place has the given permissions.
    Entry(u64, Option<u32>),
    /// The directory is over.
    End,
    /// The directory cannot be read.
    Failed,
}

/// What is done with something that was read of the directory of an archive.
#[derive(Debug, Clone, PartialEq, Eq)]
pub enum DirectoryAction {
    /// The permissions are applied to the file with the given path.
    Apply(String, Option<u32>),
    /// It is passed over.
    Pass,
    /// Reading the directory is over.
    Stop,
}

/// What is done with something that was read of the directory of an archive:
/// permissions go to the file that they are of. A directory that cannot be
/// read is no failure, since everything is unpacked already.
pub open spec fn is_directory_action(
    action: DirectoryAction,
    event: DirectoryEvent,
    written: Map<u64, Seq<char>>,
) -> bool {
    match event {
        DirectoryEvent::Entry(offset, permissions) => if written.contains_key(offset) {
            action matches DirectoryAction::Apply(p, m) && p@ == written[offset] && m
                == permissions
        } else {
            action == DirectoryAction::Pass
        },
        DirectoryEvent::End | DirectoryEvent::Failed => action == DirectoryAction::Stop,
    }
}

impl StreamedWheel {
    /// The unpacking before anything was read.
    pub fn new() -> (wheel: Self)
        ensures
            wheel@ == written_after(seq![]),
    {
        let wheel = StreamedWheel { paths: HashMap::new() };
        assert(wheel@ == Map::<u64, Seq<char>>::empty());
        wheel
    }

    /// Decides what is done with the next thing in the archive, and keeps it
    /// in mind if it is a file that is written.
    pub fn entry(&mut self, relpath: Option<&str>, is_dir: bool, file_offset: u64) -> (action:
        EntryAction)
        ensures
            is_entry_action(
                action,
                Layout::Archive,
                ListedDirs::Make,
                path_view(relpath),
                is_dir,
            ),
            final(self)@ == match relpath {
                Some(p) if !is_dir => old(self)@.insert(file_offset, p@),
                _ => old(self)@,
            },
    {
        let ghost before = self@;
        if let Some(p) = relpath {
            if !is_dir {
                self.paths.insert(file_offset, p.to_owned());
                assert(self@ == before.insert(file_offset, p@));
            }
        }
        entry_action(Layout::Archive, ListedDirs::Make, relpath, is_dir)
    }

    /// Decides what is done with something that was read of the directory at
    /// the end of the archive.
    pub fn directory_event(&self, event: &DirectoryEvent) -> (action: DirectoryAction)
        ensures
            is_directory_action(action, *event, self@),
    {
        match event {
            DirectoryEvent::Entry(offset, permissions) => match self.paths.get(offset) {
                Some(p) => DirectoryAction::Apply(p.clone(), *permissions),
                None => DirectoryAction::Pass,
            },
            DirectoryEvent::End => DirectoryAction::Stop,
            DirectoryEvent::Failed => DirectoryAction::Stop,
        }
    }
}

/// The permissions that the directory of an archive gives for a file reach
/// that file: every file that was written is found again by where it is in the
/// archive, as long as no two things are in the same place.
pub proof fn law_permissions_reach_their_file(entries: Seq<StreamedEntry>, i: int)
    requires
        0 <= i < entries.len(),
        is_written(entries[i]),
        forall|j: int|
            0 <= j < entries.len() && j != i ==> (#[trigger] entries[j]).file_offset
                != entries[i].file_offset,
    ensures
        written_after(entries).contains_key(entries[i].file_offset),
        written_after(entries)[entries[i].file_offset] == unpacked_path(
            Layout::Archive,
            entries[i].relpath->0,
        ),
    decreases entries.len(),
{
    if i < entries.len() - 1 {
        let shorter = entries.drop_last();
        assert forall|j: int| 0 <= j < shorter.len() && j != i implies (
        #[trigger] shorter[j]).file_offset != shorter[i].file_offset by {
            assert(shorter[j] == entries[j]);
        }
        law_permissions_reach_their_file(shorter, i);
        assert(entries[entries.len() - 1].file_offset != entries[i].file_offset);
    }
}

/// Nothing gets permissions but what was written.
pub proof fn law_only_written_files_get_permissions(entries: Seq<StreamedEntry>, offset: u64)
    requires
        written_after(entries).contains_key(offset),
    ensures
        exists|i: int|
            0 <= i < entries.len() && is_written(#[trigger] entries[i]) && entries[i].file_offset
                == offset && entries[i].relpath == Some(written_after(entries)[offset]),
    decreases entries.len(),
{
    let last = entries.len() - 1;
    if is_written(entries.last()) && entries.last().file_offset == offset {
        assert(is_written(entries[last]));
    } else {
        let shorter = entries.drop_last();
        law_only_written_files_get_permissions(shorter, offset);
        let i = choose|i: int|
            0 <= i < shorter.len() && is_written(#[trigger] shorter[i]) && shorter[i].file_offset
                == offset && shorter[i].relpath == Some(written_after(shorter)[offset]);
        assert(entries[i] == shorter[i]);
    }
}

/// The bits that let the owner, the group and everyone else execute a file.
pub open spec fn executable_bits() -> u32 {
    0o111
}

/// The mode that a file gets, if it has to change: a file that the archive lets
/// anyone execute can be executed by everyone, and keeps its other bits.
pub open spec fn executable_mode(archive_mode: Option<u32>, current: u32) -> Option<u32> {
    match archive_mode {
        Some(mode) => if mode & executable_bits() != 0 && current & executable_bits()
            != executable_bits() {
            Some(current | executable_bits())
        } else {
            None
        },
        None => None,
    }
}

/// Decides which mode a file gets, given the mode that the archive has for it
/// and the mode that it has on disk.
pub fn apply_executable_bit(archive_mode: Option<u32>, current: u32) -> (mode: Option<u32>)
    ensures
        mode == executable_mode(archive_mode, current),
{
    match archive_mode {
        Some(m) => if m & 0o111 != 0 && current & 0o111 != 0o111 {
            Some(current | 0o111)
        } else {
            None
        },
        None => None,
    }
}

/// A file that the archive lets anyone execute can be executed by everyone
/// afterwards; any other file keeps its mode.
pub proof fn law_executable_files_stay_executable(archive_mode: u32, current: u32)
    ensures
        ({
            let mode = match executable_mode(Some(archive_mode), current) {
                Some(changed) => changed,
                None => current,
            };
            if archive_mode & executable_bits() != 0 {
                mode & executable_bits() == executable_bits()
            } else {
                mode == current
            }
        }),
{
    assert((current | 0o111u32) & 0o111u32 == 0o111u32) by (bit_vector);
}

/// What can go wrong with one thing in an archive.
#[derive(Debug, Clone, PartialEq, Eq)]
pub enum EntryFailure {
    /// The directory of the archive lists more than there is.
    Missing,
    /// Its name is not UTF-8, for the reason given.
    InvalidName(String),
    /// The archive cannot be read on, for the reason given.
    Unreadable(String),
    /// The archive cannot be read as a stream, for the reason given. It may be
    /// possible to extract it from a buffer.
    NotStreamable(String),
    /// It cannot be written.
    Io(IoError),
}

/// What went wrong with the whole extraction, when something went wrong with
/// one thing in the archive.
pub open spec fn is_entry_error(error: ExtractError, failure: EntryFailure) -> bool {
    match failure {
        EntryFailure::Missing => error matches ExtractError::IoError(e) && e.says(
            IoErrorKind::NotFound,
            "entry not found"@,
        ),
        EntryFailure::InvalidName(reason) => error matches ExtractError::IoError(e) && e.says(
            IoErrorKind::InvalidData,
            reason@,
        ),
        EntryFailure::Unreadable(reason) => error matches ExtractError::IoError(e) && e.says(
            IoErrorKind::Other,
            reason@,
        ),
        EntryFailure::NotStreamable(reason) => error == ExtractError::ZipError(
            ZipError::UnsupportedArchive(reason),
        ),
        EntryFailure::Io(io) => error == ExtractError::IoError(io),
    }
}

/// Tells what went wrong with the whole extraction, when something went wrong
/// with one thing in the archive. An archive that cannot be read as a stream is
/// told apart from everything else, so that it can be extracted from a buffer.
pub fn entry_error(failure: EntryFailure) -> (error: ExtractError)
    ensures
        is_entry_error(error, failure),
        error is ZipError <==> failure is NotStreamable,
{
    match failure {
        EntryFailure::Missing => ExtractError::IoError(
            IoError::new(IoErrorKind::NotFound, "entry not found"),
        ),
        EntryFailure::InvalidName(message) => ExtractError::IoError(
            IoError { kind: IoErrorKind::InvalidData, message },
        ),
        EntryFailure::Unreadable(message) => ExtractError::IoError(
            IoError { kind: IoErrorKind::Other, message },
        ),
        EntryFailure::NotStreamable(reason) => ExtractError::ZipError(
            ZipError::UnsupportedArchive(reason),
        ),
        EntryFailure::Io(e) => ExtractError::IoError(e),
    }
}

} // verus!
