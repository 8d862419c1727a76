//! The console scripts of a wheel, as its `entry_points.txt` declares them.
//!
//! The file has sections, each under a header in square brackets. The lines
//! under `[console_scripts]` have the form `name = module:function`. Lines
//! that begin with `#` or `;` are comments.
use crate::error::{IoError, IoErrorKind, WheelInstallError};
use crate::record;
use crate::text;
use vstd::prelude::*;
use vstd::string::*;

verus! {

/// A line that says nothing: white space or a comment.
pub open spec fn is_ignored(line: Seq<char>) -> bool {
    let trimmed = text::trim(line);
    trimmed.len() == 0 || trimmed[0] == '#' || trimmed[0] == ';'
}

/// The header of a section.
pub open spec fn is_header(line: Seq<char>) -> bool {
    let trimmed = text::trim(line);
    !is_ignored(line) && trimmed[0] == '[' && trimmed.last() == ']'
}

/// The header of the console scripts, in whatever case it is written.
pub open spec fn is_console_header(line: Seq<char>) -> bool {
    is_header(line) && text::same_ignoring_ascii_case(text::trim(line), "[console_scripts]"@)
}

/// A declaration without the extras in square brackets behind it.
pub open spec fn without_extras(declaration: Seq<char>) -> Seq<char> {
    let i = text::position(declaration, '[');
    if i < declaration.len() {
        text::trim_end(declaration.take(i))
    } else {
        declaration
    }
}

/// What a line under the header of the console scripts declares, if it
/// declares anything.
pub open spec fn declared_script(line: Seq<char>) -> Option<Seq<char>> {
    let script = without_extras(text::trim(line));
    if is_ignored(line) || is_header(line) || script.len() == 0 {
        None
    } else {
        Some(script)
    }
}

/// Whether what follows some lines is under the header of the console scripts:
/// the last header among them decides.
pub open spec fn in_console_section(lines: Seq<Seq<char>>) -> bool
    decreases lines.len(),
{
    if lines.len() == 0 {
        false
    } else if is_header(lines.last()) {
        is_console_header(lines.last())
    } else {
        in_console_section(lines.drop_last())
    }
}

/// The console scripts that lines declare, in their order.
pub open spec fn console_scripts(lines: Seq<Seq<char>>) -> Seq<Seq<char>>
    decreases lines.len(),
{
    if lines.len() == 0 {
        seq![]
    } else {
        let earlier = console_scripts(lines.drop_last());
        match declared_script(lines.last()) {
            Some(script) if in_console_section(lines.drop_last()) => earlier.push(script),
            _ => earlier,
        }
    }
}

/// Reads the declarations of the console scripts of an `entry_points.txt`
/// file, without the extras that may stand behind them.
pub fn parse_console_scripts(entry_points_txt: &str) -> (scripts: Vec<String>)
    ensures
        record::string_views(scripts@) == console_scripts(text::lines(entry_points_txt@)),
{
    let chars = text::to_chars(entry_points_txt);
    let lines = text::split_lines(chars.as_slice());
    let ghost texts = text::lines(entry_points_txt@);
    let mut scripts: Vec<String> = Vec::new();
    let mut in_console_scripts = false;
    assert(record::string_views(scripts@) == Seq::<Seq<char>>::empty());
    for i in 0..lines.len()
        invariant
            texts == text::views(lines@),
            in_console_scripts == in_console_section(texts.take(i as int)),
            record::string_views(scripts@) == console_scripts(texts.take(i as int)),
    {
        proof {
            assert(texts[i as int] == lines@[i as int]@);
            assert(texts.take(i + 1).drop_last() == texts.take(i as int));
            assert(texts.take(i + 1).last() == texts[i as int]);
        }
        let trimmed = text::trimmed(lines[i]);
        let ghost before = scripts@;
        if trimmed.len() == 0 || trimmed[0] == '#' || trimmed[0] == ';' {
        } else if trimmed[0] == '[' && trimmed[trimmed.len() - 1] == ']' {
            in_console_scripts = text::is_text_ignoring_ascii_case(trimmed, "[console_scripts]");
        } else if in_console_scripts {
            let end = text::find_char(trimmed, '[');
            assert(trimmed@.subrange(0, end as int) == trimmed@.take(end as int));
            let declaration = if end < trimmed.len() {
                text::trimmed_end(&trimmed[0..end])
            } else {
                trimmed
            };
            if declaration.len() > 0 {
                scripts.push(text::to_text(declaration));
                assert(record::string_views(scripts@) == record::string_views(before).push(
                    declaration@,
                ));
            }
        }
    }
    assert(texts.take(texts.len() as int) == texts);
    scripts
}

/// A script that runs a function of a Python module.
#[derive(Debug, Clone, PartialEq, Eq)]
pub struct EntryPoint {
    /// The name of the script.
    pub command: String,
    /// The module that holds the function.
    pub module: String,
    /// The function that the script calls.
    pub function: String,
}

/// The declarations of console scripts that an attempt to read the
/// `entry_points.txt` of an extracted wheel gives: the attempt to find the
/// directory of its metadata, and to read the file there. A wheel without that
/// file declares none.
pub fn read_console_script_entry_points(content: Result<Result<String, IoError>, IoError>) -> (
    scripts: Result<Vec<String>, WheelInstallError>)
    ensures
        match content {
            Ok(Ok(c)) => scripts matches Ok(s) && record::string_views(s@) == console_scripts(
                text::lines(c@),
            ),
            Ok(Err(e)) => if e.kind == IoErrorKind::NotFound {
                scripts matches Ok(s) && s@ == Seq::<String>::empty()
            } else {
                scripts == Err::<Vec<String>, _>(WheelInstallError::FailedToReadEntryPoints(e))
            },
            Err(e) => scripts == Err::<Vec<String>, _>(WheelInstallError::FailedToReadRecord(e)),
        },
{
    match content {
        Ok(Ok(c)) => Ok(parse_console_scripts(c.as_str())),
        Ok(Err(e)) => if e.kind == IoErrorKind::NotFound {
            Ok(Vec::new())
        } else {
            Err(WheelInstallError::FailedToReadEntryPoints(e))
        },
        Err(e) => Err(WheelInstallError::FailedToReadRecord(e)),
    }
}

/// The entry points among the results of reading declarations, in their order.
/// A declaration that is no entry point is left out; it does not keep the
/// wheel from being installed.
pub fn valid_entry_points(parsed: Vec<Option<EntryPoint>>) -> (entry_points: Vec<EntryPoint>)
    ensures
        entry_points@ == parsed@.filter_map(|p: Option<EntryPoint>| p),
{
    let ghost all = parsed@;
    let ghost f = |p: Option<EntryPoint>| p;
    let mut entry_points: Vec<EntryPoint> = Vec::new();
    assert(all.take(0).filter_map(f) == Seq::<EntryPoint>::empty());
    for next in it: parsed
        invariant
            f == |p: Option<EntryPoint>| p,
            it.seq() == all,
            entry_points@ == all.take(it.index() as int).filter_map(f),
    {
        let ghost i = it.index() as int;
        proof {
            assert(all.take(i + 1).drop_last() == all.take(i));
            assert(all.take(i + 1).last() == all[i]);
        }
        match next {
            Some(entry_point) => {
                entry_points.push(entry_point);
            },
            None => {},
        }
    }
    assert(all.take(all.len() as int) == all);
    entry_points
}

/// Lines without a header among them leave open what is under them.
proof fn lemma_body(before: Seq<Seq<char>>, body: Seq<Seq<char>>)
    requires
        forall|i: int| 0 <= i < body.len() ==> !is_header(#[trigger] body[i]),
    ensures
        in_console_section(before + body) == in_console_section(before),
        console_scripts(before + body) == console_scripts(before) + (if in_console_section(before) {
            body.filter_map(|line: Seq<char>| declared_script(line))
        } else {
            seq![]
        }),
    decreases body.len(),
{
    if body.len() == 0 {
        assert(before + body == before);
        assert(console_scripts(before) + Seq::<Seq<char>>::empty() == console_scripts(before));
    } else {
        let shorter = body.drop_last();
        assert forall|i: int| 0 <= i < shorter.len() implies !is_header(#[trigger] shorter[i]) by {
            assert(shorter[i] == body[i]);
        }
        lemma_body(before, shorter);
        assert((before + body).drop_last() == before + shorter);
        assert((before + body).last() == body.last());
        assert(body.last() == body[body.len() - 1]);
    }
}

/// A section of a file: its lines declare scripts, each for itself and in
/// their order, if it is the one of the console scripts, and none otherwise.
/// It makes no difference to what the lines before it declare.
pub proof fn law_section(before: Seq<Seq<char>>, header: Seq<char>, body: Seq<Seq<char>>)
    requires
        is_header(header),
        forall|i: int| 0 <= i < body.len() ==> !is_header(#[trigger] body[i]),
    ensures
        console_scripts(before + seq![header] + body) == console_scripts(before) + (
        if is_console_header(header) {
            body.filter_map(|line: Seq<char>| declared_script(line))
        } else {
            seq![]
        }),
{
    let opened = before + seq![header];
    assert(opened.drop_last() == before);
    assert(opened.last() == header);
    lemma_body(opened, body);
}

/// Outside any section nothing is declared.
pub proof fn law_no_section(lines: Seq<Seq<char>>)
    requires
        forall|i: int| 0 <= i < lines.len() ==> !is_header(#[trigger] lines[i]),
    ensures
        console_scripts(lines) == Seq::<Seq<char>>::empty(),
{
    let none = Seq::<Seq<char>>::empty();
    lemma_body(none, lines);
    assert(none + lines == lines);
}

/// Every script that is returned names something and carries no extras.
pub proof fn law_scripts_are_clean(lines: Seq<Seq<char>>)
    ensures
        forall|i: int|
            #![trigger console_scripts(lines)[i]]
            0 <= i < console_scripts(lines).len() ==> console_scripts(lines)[i].len() > 0
                && !console_scripts(lines)[i].contains('['),
    decreases lines.len(),
{
    if lines.len() > 0 {
        law_scripts_are_clean(lines.drop_last());
        let earlier = console_scripts(lines.drop_last());
        let declaration = text::trim(lines.last());
        lemma_without_extras(declaration);
        assert forall|i: int|
            #![trigger console_scripts(lines)[i]]
            0 <= i < console_scripts(lines).len() implies console_scripts(lines)[i].len() > 0
            && !console_scripts(lines)[i].contains('[') by {
            if i < earlier.len() {
                assert(console_scripts(lines)[i] == earlier[i]);
            }
        }
    }
}

/// Cutting off trailing white space leaves the beginning.
proof fn lemma_trim_end_prefix(s: Seq<char>)
    ensures
        text::trim_end(s).is_prefix_of(s),
    decreases s.len(),
{
    if s.len() > 0 && text::is_white_space(s.last()) {
        lemma_trim_end_prefix(s.drop_last());
    }
}

/// A declaration without extras has no bracket that opens them.
proof fn lemma_without_extras(declaration: Seq<char>)
    ensures
        !without_extras(declaration).contains('['),
{
    let i = text::position(declaration, '[');
    text::lemma_position(declaration, '[');
    let kept = without_extras(declaration);
    if i < declaration.len() {
        lemma_trim_end_prefix(declaration.take(i));
    }
    if kept.contains('[') {
        let j = choose|j: int| 0 <= j < kept.len() && kept[j] == '[';
        assert(declaration[j] == '[');
    }
}

} // verus!
