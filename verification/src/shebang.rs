//! The first lines of the scripts that a wheel brings along.
//!
//! A script of a wheel's `scripts` category may begin with `#!python` or
//! `#!pythonw`. Such a line stands for the interpreter of the environment that
//! the script is installed into, and has to be replaced by it.
use crate::category;
use crate::category::WheelDataCategory;
use crate::error::{IoError, IoErrorKind, WheelInstallError};
use crate::record;
use crate::record::{EntryView, WheelRecord, WheelRecordEntry};
use crate::text;
use vstd::prelude::*;
use vstd::string::*;

verus! {

/// A line without the carriage return it ends with.
pub open spec fn without_return(line: Seq<u8>) -> Seq<u8> {
    if line.len() > 0 && line.last() == 13 {
        line.drop_last()
    } else {
        line
    }
}

/// The first line of a file, without its ending.
pub open spec fn first_line(content: Seq<u8>) -> Seq<u8> {
    without_return(content.take(text::position(content, 10u8)))
}

/// The end of the first line and everything behind it.
pub open spec fn behind_first_line(content: Seq<u8>) -> Seq<u8> {
    content.skip(text::position(content, 10u8))
}

/// A line that stands for the interpreter of the environment.
pub open spec fn is_placeholder(line: Seq<u8>) -> bool {
    line == vstd::utf8::encode_utf8("#!python"@) || line == vstd::utf8::encode_utf8("#!pythonw"@)
}

/// What a script has to become, if its first line is a placeholder.
pub open spec fn rewritten(content: Seq<u8>, shebang: Seq<char>) -> Option<Seq<u8>> {
    if is_placeholder(first_line(content)) {
        Some(vstd::utf8::encode_utf8(shebang) + behind_first_line(content))
    } else {
        None
    }
}

/// Whether two rows of bytes are the same.
fn same_bytes(a: &[u8], b: &[u8]) -> (same: bool)
    ensures
        same == (a@ == b@),
{
    if a.len() != b.len() {
        return false;
    }
    for i in 0..a.len()
        invariant
            a@.len() == b@.len(),
            a@.take(i as int) == b@.take(i as int),
    {
        if a[i] != b[i] {
            assert(a@[i as int] != b@[i as int]);
            return false;
        }
    }
    assert(a@.take(a@.len() as int) == a@);
    assert(b@.take(b@.len() as int) == b@);
    true
}

/// The contents of a script with its placeholder replaced by the given first
/// line. There are none if the script has no placeholder.
pub fn replace_placeholder(content: &[u8], shebang: &str) -> (new_content: Option<Vec<u8>>)
    ensures
        match new_content {
            Some(c) => rewritten(content@, shebang@) == Some(c@),
            None => rewritten(content@, shebang@) is None,
        },
{
    let mut end: usize = 0;
    while end < content.len() && content[end] != 10
        invariant
            end <= content@.len(),
            forall|j: int| 0 <= j < end ==> content@[j] != 10,
        decreases content@.len() - end,
    {
        end = end + 1;
    }
    proof {
        text::lemma_position_is(content@, 10u8, end as int);
        assert(content@.subrange(0, end as int) == content@.take(end as int));
    }
    let with_return = &content[0..end];
    let line = if with_return.len() > 0 && with_return[with_return.len() - 1] == 13 {
        &with_return[0..with_return.len() - 1]
    } else {
        with_return
    };
    assert(line@ == first_line(content@));
    if !same_bytes(line, "#!python".as_bytes()) && !same_bytes(line, "#!pythonw".as_bytes()) {
        return None;
    }
    let mut new_content: Vec<u8> = Vec::new();
    new_content.extend_from_slice(shebang.as_bytes());
    new_content.extend_from_slice(&content[end..content.len()]);
    assert(new_content@ == vstd::utf8::encode_utf8(shebang@) + behind_first_line(content@));
    Some(new_content)
}

/// What has to be written in the place of an installed script, given the
/// attempt to read it. A script that is missing needs nothing.
pub fn rewrite_wheel_script_shebang(content: Result<Vec<u8>, IoError>, shebang: &str) -> (
    new_content: Result<Option<Vec<u8>>, WheelInstallError>)
    ensures
        match content {
            Ok(c) => match rewritten(c@, shebang@) {
                Some(bytes) => new_content matches Ok(Some(n)) && n@ == bytes,
                None => new_content == Ok::<_, WheelInstallError>(None::<Vec<u8>>),
            },
            Err(e) => if e.kind == IoErrorKind::NotFound {
                new_content == Ok::<_, WheelInstallError>(None::<Vec<u8>>)
            } else {
                new_content == Err::<Option<Vec<u8>>, _>(WheelInstallError::Io(e))
            },
        },
{
    match content {
        Ok(c) => Ok(replace_placeholder(c.as_slice(), shebang)),
        Err(e) => if e.kind == IoErrorKind::NotFound {
            Ok(None)
        } else {
            Err(WheelInstallError::Io(e))
        },
    }
}

/// Where a listed file is installed, if it is of the `scripts` category.
pub open spec fn script_destination(e: EntryView) -> Option<Seq<char>> {
    if category::in_scripts_category(e.archive_path) {
        Some(category::installed_path(e.archive_path))
    } else {
        None
    }
}

/// Where the files of a wheel's `scripts` category are installed: those whose
/// first lines have to be looked at once the wheel is linked.
pub fn fix_up_script_shebangs(wheel_record: &WheelRecord) -> (scripts: Vec<String>)
    ensures
        record::string_views(scripts@) == wheel_record@.filter_map(
            |e: EntryView| script_destination(e),
        ),
{
    let ghost all = wheel_record@;
    let ghost f = |e: EntryView| script_destination(e);
    let mut scripts: Vec<String> = Vec::new();
    assert(record::string_views(scripts@) == all.take(0).filter_map(f));
    for i in 0..wheel_record.entries.len()
        invariant
            all == wheel_record@,
            f == |e: EntryView| script_destination(e),
            record::string_views(scripts@) == all.take(i as int).filter_map(f),
    {
        let entry: &WheelRecordEntry = &wheel_record.entries[i];
        let ghost before = scripts@;
        proof {
            assert(all[i as int] == entry@);
            assert(all.take(i + 1).drop_last() == all.take(i as int));
            assert(all.take(i + 1).last() == all[i as int]);
        }
        let is_script = match category::wheel_archive_category(entry.archive_path.as_str()) {
            Some((WheelDataCategory::Scripts, _)) => true,
            _ => false,
        };
        if is_script {
            scripts.push(entry.mapped_path());
            assert(record::string_views(scripts@) == record::string_views(before).push(
                category::installed_path(entry.archive_path@),
            ));
        }
    }
    assert(all.take(all.len() as int) == all);
    scripts
}

/// A script that was rewritten is not rewritten again, unless the line that
/// was put in is a placeholder itself.
pub proof fn law_rewriting_is_done_once(content: Seq<u8>, shebang: Seq<char>)
    requires
        !vstd::utf8::encode_utf8(shebang).contains(10u8),
        !is_placeholder(without_return(vstd::utf8::encode_utf8(shebang))),
    ensures
        rewritten(content, shebang) matches Some(new_content) ==> rewritten(
            new_content,
            shebang,
        ) is None,
{
    let end = text::position(content, 10u8);
    text::lemma_position(content, 10u8);
    let line = vstd::utf8::encode_utf8(shebang);
    let new_content = line + behind_first_line(content);
    assert forall|j: int| 0 <= j < line.len() implies new_content[j] != 10 by {
        assert(line.contains(line[j]));
    }
    assert(behind_first_line(content).len() > 0 ==> behind_first_line(content)[0] == 10);
    text::lemma_position_is(new_content, 10u8, line.len() as int);
    assert(new_content.take(line.len() as int) == line);
}

/// A rewritten script has the given first line, and what was behind the first
/// line is still there.
pub proof fn law_rewriting_keeps_the_rest(content: Seq<u8>, shebang: Seq<char>)
    requires
        !vstd::utf8::encode_utf8(shebang).contains(10u8),
        is_placeholder(first_line(content)),
    ensures
        rewritten(content, shebang) matches Some(new_content) && first_line(new_content)
            == without_return(vstd::utf8::encode_utf8(shebang)) && behind_first_line(new_content)
            == behind_first_line(content),
{
    text::lemma_position(content, 10u8);
    let line = vstd::utf8::encode_utf8(shebang);
    let rest = behind_first_line(content);
    let new_content = line + rest;
    assert forall|j: int| 0 <= j < line.len() implies new_content[j] != 10 by {
        assert(line.contains(line[j]));
    }
    assert(rest.len() > 0 ==> rest[0] == 10);
    text::lemma_position_is(new_content, 10u8, line.len() as int);
    assert(new_content.take(line.len() as int) == line);
    assert(new_content.skip(line.len() as int) == rest);
}

} // verus!
