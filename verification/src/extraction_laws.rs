//! Where the things in an archive are put, and what is done with them.
use crate::category;
use crate::error::{ExtractError, IoErrorKind, ZipError};
use crate::extraction;
use crate::extraction::{
    DirectoryAction, DirectoryEvent, EntryAction, EntryFailure, Layout, ListedDirs, StreamedWheel,
};
use crate::path;
use crate::path::PathComponent;
use crate::path_laws;
use vstd::prelude::*;
use vstd::string::*;

verus! {

/// A path of names is kept to the letter, whatever the names are, as long as
/// there is no NUL in it.
pub proof fn law_names_are_kept(name: &str, relpath: Option<String>, names: Seq<Seq<char>>)
    requires
        call_ensures(extraction::sanitize_zip_entry_name, (name,), relpath),
        path_laws::are_names(names),
        name@ == path_laws::slashed(names),
        !name@.contains('\0'),
    ensures
        relpath matches Some(p) && p@ == name@,
{
    path_laws::law_path_of_names(names);
    lemma_names(names);
}

/// Names come to themselves.
proof fn lemma_names(names: Seq<Seq<char>>)
    ensures
        extraction::resolved(path_laws::normal(names)) == Some(path_laws::normal(names)),
    decreases names.len(),
{
    let cs = path_laws::normal(names);
    if names.len() == 0 {
        assert(cs == Seq::<PathComponent<Seq<char>>>::empty());
    } else {
        lemma_names(names.drop_last());
        assert(cs.drop_last() == path_laws::normal(names.drop_last()));
        assert(cs.drop_last().push(cs.last()) == cs);
    }
}

/// A name with a NUL in it is not used, and neither is one that starts at the
/// root.
pub proof fn law_refused_names(name: &str, relpath: Option<String>)
    requires
        call_ensures(extraction::sanitize_zip_entry_name, (name,), relpath),
    ensures
        name@.contains('\0') ==> relpath is None,
        name@.len() > 0 && name@[0] == '/' ==> relpath is None,
{
    extraction::lemma_enclosed_names(name@);
}

/// A name of one segment stands for itself, `.` for the directory that is
/// unpacked to, and `..` for nothing.
pub proof fn law_first_segment(name: &str, relpath: Option<String>)
    requires
        call_ensures(extraction::sanitize_zip_entry_name, (name,), relpath),
        !name@.contains('/'),
        !name@.contains('\0'),
    ensures
        name@.len() == 0 || name@ == seq!['.'] ==> (relpath matches Some(p) && p@.len() == 0),
        name@ == seq!['.', '.'] ==> relpath is None,
        name@.len() > 0 && name@ != seq!['.'] && name@ != seq!['.', '.'] ==> (
        relpath matches Some(p) && p@ == name@),
{
    let s = name@;
    path_laws::law_path_start(s);
    reveal_with_fuel(extraction::resolved, 2);
    let cs = path::path_components(s);
    let none = Seq::<PathComponent<Seq<char>>>::empty();
    if s.len() == 1 && s[0] == '.' {
        assert(s == seq!['.']);
    }
    if s.len() == 2 && s[0] == '.' && s[1] == '.' {
        assert(s == seq!['.', '.']);
    }
    if cs.len() == 1 {
        assert(cs.drop_last() == none);
    }
    assert(none.push(PathComponent::Normal(s)) == seq![PathComponent::Normal(s)]);
}

/// Whether a path is another one and one more name behind it.
pub open spec fn is_longer_by(longer: Seq<char>, shorter: Seq<char>, name: Seq<char>) -> bool {
    if shorter.len() == 0 {
        longer == name
    } else {
        longer == shorter + seq!['/'] + name
    }
}

/// Another segment behind a name: a name is added, `.` and nothing change
/// nothing, `..` takes back the last name, and is refused if there is none to
/// take back. What was refused stays refused.
pub proof fn law_next_segment(
    name: &str,
    longer_name: &str,
    segment: Seq<char>,
    relpath: Option<String>,
    longer_relpath: Option<String>,
)
    requires
        call_ensures(extraction::sanitize_zip_entry_name, (name,), relpath),
        call_ensures(extraction::sanitize_zip_entry_name, (longer_name,), longer_relpath),
        name@.len() > 0,
        !segment.contains('/'),
        !segment.contains('\0'),
        longer_name@ == name@ + seq!['/'] + segment,
    ensures
        match relpath {
            None => longer_relpath is None,
            Some(p) => if segment.len() == 0 || segment == seq!['.'] {
                longer_relpath matches Some(q) && q@ == p@
            } else if segment == seq!['.', '.'] {
                if p@.len() == 0 {
                    longer_relpath is None
                } else {
                    longer_relpath matches Some(q) && exists|last: Seq<char>|
                        path_laws::is_name(last) && #[trigger] is_longer_by(p@, q@, last)
                }
            } else {
                longer_relpath matches Some(q) && is_longer_by(q@, p@, segment)
            },
        },
{
    let s = name@;
    let whole = longer_name@;
    assert(whole.contains('\0') <==> s.contains('\0')) by {
        if s.contains('\0') {
            let k = choose|k: int| 0 <= k < s.len() && s[k] == '\0';
            assert(whole[k] == '\0');
        }
        if whole.contains('\0') {
            let k = choose|k: int| 0 <= k < whole.len() && whole[k] == '\0';
            if k < s.len() {
                assert(s[k] == '\0');
            } else if k > s.len() {
                assert(segment[k - s.len() - 1] == '\0');
            }
        }
    }
    path_laws::law_path_segment(s, segment);
    let cs = path::path_components(s);
    let more = path_laws::segment_means(segment);
    let all = path::path_components(whole);
    if segment.len() == 1 && segment[0] == '.' {
        assert(segment == seq!['.']);
    }
    if segment.len() == 2 && segment[0] == '.' && segment[1] == '.' {
        assert(segment == seq!['.', '.']);
    }
    if more.len() == 0 {
        assert(all == cs);
    } else {
        assert(all.drop_last() == cs);
        assert(all.last() == more[0]);
    }
    extraction::lemma_enclosed_names(s);
    if let Some(names) = extraction::resolved(cs) {
        path::lemma_written_components(names);
        lemma_written_longer(names, segment);
        if names.len() == 0 {
            assert(path::written(names).len() == 0);
        } else {
            let last = names[names.len() - 1];
            assert(last is Normal && path::is_named(last));
            let text = last->Normal_0;
            assert(names.drop_last().push(last) == names);
            lemma_written_longer(names.drop_last(), text);
            assert(text.len() > 0 && path_laws::is_name(text)) by {
                if text.len() == 0 {
                    assert(text == Seq::<char>::empty());
                }
                if text.len() == 1 && text[0] == '.' {
                    assert(text == seq!['.']);
                }
                if text.len() == 2 && text[0] == '.' && text[1] == '.' {
                    assert(text == seq!['.', '.']);
                }
            }
            assert forall|k: int| 0 <= k < names.drop_last().len() implies path::is_named(
                #[trigger] names.drop_last()[k],
            ) by {
                assert(names.drop_last()[k] == names[k]);
            }
            lemma_written_empty(names.drop_last());
            assert(path::written(names).len() > 0);
            assert(is_longer_by(path::written(names), path::written(names.drop_last()), text));
        }
        lemma_written_empty(names);
    }
}

/// Components that are written as nothing are none.
proof fn lemma_written_empty(cs: Seq<PathComponent<Seq<char>>>)
    requires
        forall|k: int| 0 <= k < cs.len() ==> path::is_named(#[trigger] cs[k]),
    ensures
        path::written(cs).len() == 0 <==> cs.len() == 0,
{
    path::lemma_written_components(cs);
    if path::written(cs).len() == 0 {
        path_laws::law_path_start(path::written(cs));
        assert(path::written(cs) == Seq::<char>::empty());
    }
}

/// One more name at the end of what is written.
proof fn lemma_written_longer(cs: Seq<PathComponent<Seq<char>>>, name: Seq<char>)
    ensures
        cs.len() > 0 ==> path::written(cs.push(PathComponent::Normal(name))) == path::written(cs)
            + seq!['/'] + name,
        cs.len() == 0 ==> path::written(cs.push(PathComponent::Normal(name))) == name
            && path::written(cs).len() == 0,
{
    path_laws::law_written(cs, name);
    if cs.len() == 0 {
        assert(cs.push(PathComponent::Normal(name)) == seq![PathComponent::Normal(name)]);
    }
}

/// In the layout of the archive a file is put where it is in the archive, and in
/// the other where it is installed.
pub proof fn law_out_path(layout: Layout, p: &str, out: String, mapped: String)
    requires
        call_ensures(extraction::out_path, (layout, p), out),
        call_ensures(category::map_wheel_archive_path, (p,), mapped),
    ensures
        layout == Layout::Archive ==> out@ == p@,
        layout == Layout::Installed ==> out@ == mapped@,
{
}

/// Things with unsafe names are passed over. Every other file is written where
/// the layout puts it, and every other directory is made there, if directories
/// are made at all.
pub proof fn law_entry_action(
    layout: Layout,
    dirs: ListedDirs,
    relpath: Option<&str>,
    is_dir: bool,
    action: EntryAction,
    out: String,
)
    requires
        call_ensures(extraction::entry_action, (layout, dirs, relpath, is_dir), action),
        relpath matches Some(p) ==> call_ensures(extraction::out_path, (layout, p), out),
    ensures
        relpath is None ==> action == EntryAction::Skip,
        relpath is Some && !is_dir ==> (action matches EntryAction::WriteFile(o) && o@ == out@),
        relpath is Some && is_dir && dirs == ListedDirs::Make ==> (action matches EntryAction::MakeDir(
            o,
        ) && o@ == out@),
        relpath is Some && is_dir && dirs == ListedDirs::Pass ==> action == EntryAction::Skip,
{
}

/// Before anything was read nothing was written.
pub proof fn law_nothing_was_written(wheel: StreamedWheel, offset: u64)
    requires
        call_ensures(StreamedWheel::new, (), wheel),
    ensures
        !wheel@.contains_key(offset),
{
}

/// Every file with a safe name is kept in mind under its place and path, as it
/// is, and takes nothing else out of mind; nothing else is kept in mind.
pub proof fn law_kept_in_mind(
    wheel: &mut StreamedWheel,
    relpath: Option<&str>,
    is_dir: bool,
    file_offset: u64,
    action: EntryAction,
    offset: u64,
)
    requires
        call_ensures(StreamedWheel::entry, (wheel, relpath, is_dir, file_offset), action),
    ensures
        relpath matches Some(p) ==> !is_dir ==> {
            &&& final(wheel)@.contains_key(file_offset)
            &&& final(wheel)@[file_offset] == p@
        },
        relpath is None || is_dir || offset != file_offset ==> final(wheel)@.contains_key(offset)
            == old(wheel)@.contains_key(offset) && final(wheel)@[offset] == old(wheel)@[offset],
        relpath is None ==> action == EntryAction::Skip,
        relpath matches Some(p) ==> if is_dir {
            action matches EntryAction::MakeDir(out) && out@ == p@
        } else {
            action matches EntryAction::WriteFile(out) && out@ == p@
        },
{
}

/// Permissions go to the file that was written from the place they are for, as
/// they are. What was not written gets none, and the end of the directory is the
/// end, however it comes.
pub proof fn law_directory_event(
    wheel: &StreamedWheel,
    event: &DirectoryEvent,
    action: DirectoryAction,
)
    requires
        call_ensures(StreamedWheel::directory_event, (wheel, event), action),
    ensures
        match *event {
            DirectoryEvent::Entry(offset, permissions) => {
                &&& wheel@.contains_key(offset) ==> (action matches DirectoryAction::Apply(p, m)
                    && p@ == wheel@[offset] && m == permissions)
                &&& !wheel@.contains_key(offset) ==> action == DirectoryAction::Pass
            },
            DirectoryEvent::End => action == DirectoryAction::Stop,
            DirectoryEvent::Failed => action == DirectoryAction::Stop,
        },
{
}

/// The bits of the two modes agree but for the three that let a file be
/// executed.
proof fn lemma_bits(mode: u32, current: u32)
    ensures
        (current | 0o111u32) & !0o111u32 == current & !0o111u32,
        (current | 0o111u32) & 0o111u32 == 0o111u32,
        mode & 0o111u32 == 0 <==> mode & 0o100u32 == 0 && mode & 0o010u32 == 0 && mode & 0o001u32
            == 0,
        current & 0o111u32 == 0o111u32 ==> current | 0o111u32 == current,
{
    assert((current | 0o111u32) & !0o111u32 == current & !0o111u32) by (bit_vector);
    assert((current | 0o111u32) & 0o111u32 == 0o111u32) by (bit_vector);
    assert(mode & 0o111u32 == 0 <==> mode & 0o100u32 == 0 && mode & 0o010u32 == 0 && mode & 0o001u32
        == 0) by (bit_vector);
    assert(current & 0o111u32 == 0o111u32 ==> current | 0o111u32 == current) by (bit_vector);
}

/// If anyone may execute a file by the archive, be it the owner, the group or
/// someone else, everyone may afterwards; no other bit changes, and no file
/// changes otherwise.
pub proof fn law_executable_bit(archive_mode: Option<u32>, current: u32, mode: Option<u32>)
    requires
        call_ensures(extraction::apply_executable_bit, (archive_mode, current), mode),
    ensures
        match archive_mode {
            Some(m) => if m & 0o100 == 0 && m & 0o010 == 0 && m & 0o001 == 0 {
                mode is None
            } else {
                match mode {
                    Some(new) => new & 0o111 == 0o111 && new & !0o111u32 == current & !0o111u32
                        && new != current,
                    None => current & 0o111 == 0o111,
                }
            },
            None => mode is None,
        },
{
    if let Some(m) = archive_mode {
        lemma_bits(m, current);
    }
}

/// What went wrong with one thing in an archive is told for what it is.
pub proof fn law_entry_error(failure: EntryFailure, error: ExtractError)
    requires
        call_ensures(extraction::entry_error, (failure,), error),
    ensures
        match failure {
            EntryFailure::Missing => error matches ExtractError::IoError(e) && e.kind
                == IoErrorKind::NotFound && e.message@ == "entry not found"@,
            EntryFailure::InvalidName(reason) => error matches ExtractError::IoError(e) && e.kind
                == IoErrorKind::InvalidData && e.message@ == reason@,
            EntryFailure::Unreadable(reason) => error matches ExtractError::IoError(e) && e.kind
                == IoErrorKind::Other && e.message@ == reason@,
            EntryFailure::NotStreamable(reason) => error matches ExtractError::ZipError(
                ZipError::UnsupportedArchive(r),
            ) && r@ == reason@,
            EntryFailure::Io(io) => error matches ExtractError::IoError(e) && e == io,
        },
{
}

} // verus!
