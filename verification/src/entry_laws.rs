//! What the lines of `entry_points.txt` declare, and where the metadata of a
//! wheel is found.
use crate::category_laws;
use crate::dist_info;
use crate::dist_info::DirEntry;
use crate::entry_points;
use crate::entry_points::EntryPoint;
use crate::error::{IoError, IoErrorKind, WheelInstallError};
use crate::record;
use crate::text;
use crate::text_laws;
use vstd::prelude::*;
use vstd::string::*;

verus! {

/// A declaration: it has no white space at its ends, begins like no comment,
/// header or extras, and has no bracket that opens extras in it. Anything else
/// may be in it.
pub open spec fn is_declaration(s: Seq<char>) -> bool {
    &&& text_laws::has_clean_ends(s)
    &&& s[0] != '#'
    &&& s[0] != ';'
    &&& !s.contains('[')
}

/// A declaration is declared as it stands, whatever white space is at the ends
/// of its line, and whatever extras are behind it.
pub proof fn law_declared(
    left: Seq<char>,
    declaration: Seq<char>,
    gap: Seq<char>,
    extras: Seq<char>,
    right: Seq<char>,
)
    requires
        text_laws::is_blank(left),
        text_laws::is_blank(gap),
        text_laws::is_blank(right),
        is_declaration(declaration),
        extras.len() > 0 ==> !text::is_white_space(extras[extras.len() - 1]),
    ensures
        entry_points::declared_script(declaration) == Some(declaration),
        entry_points::declared_script(left + declaration + right) == Some(declaration),
        entry_points::declared_script(left + (declaration + gap + seq!['['] + extras) + right)
            == Some(declaration),
{
    let none = Seq::<char>::empty();
    text_laws::law_trim(left, declaration, right);
    text_laws::law_trim(none, declaration, none);
    assert(none + declaration + none == declaration);
    text::lemma_position(declaration, '[');
    let i = text::position(declaration, '[');
    if i < declaration.len() {
        assert(declaration.contains(declaration[i]));
    }
    assert(declaration.contains(declaration[0]));
    let core = declaration + gap + seq!['['] + extras;
    let n = (declaration + gap).len() as int;
    assert(core[n] == '[');
    assert(!text::is_white_space('['));
    assert(core[0] == declaration[0]);
    assert(core[core.len() - 1] == if extras.len() > 0 {
        extras[extras.len() - 1]
    } else {
        '['
    });
    text_laws::law_trim(left, core, right);
    assert forall|j: int| 0 <= j < n implies core[j] != '[' by {
        if j < declaration.len() {
            assert(core[j] == declaration[j]);
            assert(declaration.contains(declaration[j]));
        } else {
            assert(core[j] == gap[j - declaration.len()]);
        }
    }
    text::lemma_position_is(core, '[', n);
    assert(core.take(n) == declaration + gap);
    text_laws::law_trim_end(declaration, gap);
}

/// A line of white space declares nothing, nor does one that begins with `#`,
/// `;` or `[`.
pub proof fn law_not_declared(left: Seq<char>, s: Seq<char>, right: Seq<char>)
    requires
        text_laws::is_blank(left),
        text_laws::is_blank(right),
        text_laws::has_clean_ends(s),
    ensures
        entry_points::declared_script(left) is None,
        s[0] == '#' || s[0] == ';' || s[0] == '[' ==> entry_points::declared_script(
            left + s + right,
        ) is None,
{
    text_laws::law_trim_blank(left);
    text_laws::law_trim(left, s, right);
    if s[0] == '[' {
        text::lemma_position_is(s, '[', 0);
        assert(s.take(0) == Seq::<char>::empty());
    }
}

/// What stands in brackets from end to end of a line is a header, whatever it
/// is; it is that of the console scripts exactly if it is `console_scripts`, in
/// whatever case its letters are.
pub proof fn law_header(left: Seq<char>, title: Seq<char>, right: Seq<char>)
    requires
        text_laws::is_blank(left),
        text_laws::is_blank(right),
    ensures
        entry_points::is_header(left + (seq!['['] + title + seq![']']) + right),
        entry_points::is_console_header(left + (seq!['['] + title + seq![']']) + right)
            <==> is_console_title(title),
{
    let s = seq!['['] + title + seq![']'];
    let console = "[console_scripts]"@;
    reveal_strlit("[console_scripts]");
    reveal_strlit("console_scripts");
    assert(s[0] == '[');
    assert(s[s.len() - 1] == ']');
    text_laws::law_trim(left, s, right);
    assert(s.last() == ']');
    text_laws::law_case(s, console);
    assert forall|i: int| 0 <= i < 15 implies console[i + 1] == "console_scripts"@[i] && !('A'
        <= console[i + 1] <= 'Z') by {}
    if title.len() == 15 {
        assert(console.len() == 17 && s.len() == 17);
        if text::same_ignoring_ascii_case(s, console) {
            assert forall|i: int| 0 <= i < 15 implies (#[trigger] title[i] == "console_scripts"@[i]
                || ('A' <= title[i] <= 'Z' && "console_scripts"@[i] as int == title[i] as int
                + 32)) by {
                assert(s[i + 1] == title[i]);
            }
        }
        if forall|i: int|
            0 <= i < 15 ==> (#[trigger] title[i] == "console_scripts"@[i] || ('A' <= title[i] <= 'Z'
                && "console_scripts"@[i] as int == title[i] as int + 32)) {
            assert forall|i: int| 0 <= i < s.len() implies (#[trigger] s[i] == console[i] || ('A'
                <= s[i] <= 'Z' && console[i] as int == s[i] as int + 32) || ('A' <= console[i]
                <= 'Z' && s[i] as int == console[i] as int + 32)) by {
                if 0 < i < 16 {
                    assert(s[i] == title[i - 1]);
                    assert(console[i - 1 + 1] == "console_scripts"@[i - 1]);
                }
            }
        }
    }
}

/// A line that does not begin and end with brackets is no header.
pub proof fn law_no_header(left: Seq<char>, s: Seq<char>, right: Seq<char>)
    requires
        text_laws::is_blank(left),
        text_laws::is_blank(right),
        text_laws::has_clean_ends(s),
        s[0] != '[' || s[s.len() - 1] != ']',
    ensures
        !entry_points::is_header(left + s + right),
        !entry_points::is_header(left),
{
    text_laws::law_trim(left, s, right);
    text_laws::law_trim_blank(left);
}

/// A text that makes a line of its own: it has no line feed in it, and no
/// carriage return at its end.
pub open spec fn is_line(s: Seq<char>) -> bool {
    !s.contains('\n') && (s.len() > 0 ==> s[s.len() - 1] != '\r')
}

/// Texts that make lines.
pub open spec fn are_lines(lines: Seq<Seq<char>>) -> bool {
    forall|i: int| 0 <= i < lines.len() ==> is_line(#[trigger] lines[i])
}

/// Lines with a line feed behind each.
pub open spec fn text_of(lines: Seq<Seq<char>>) -> Seq<char>
    decreases lines.len(),
{
    if lines.len() == 0 {
        seq![]
    } else {
        lines[0] + seq!['\n'] + text_of(lines.drop_first())
    }
}

/// Lines are read back from the text that they make.
proof fn lemma_text_of(lines: Seq<Seq<char>>)
    requires
        are_lines(lines),
    ensures
        text::lines(text_of(lines)) == lines,
    decreases lines.len(),
{
    if lines.len() == 0 {
        text_laws::law_lines(Seq::<char>::empty(), Seq::<char>::empty());
    } else {
        let others = lines.drop_first();
        assert forall|i: int| 0 <= i < others.len() implies is_line(#[trigger] others[i]) by {
            assert(others[i] == lines[i + 1]);
        }
        lemma_text_of(others);
        assert(is_line(lines[0]));
        text_laws::law_lines(lines[0], text_of(others));
        assert(seq![lines[0]] + others == lines);
    }
}

/// A line that declares something: white space may be at its ends, and extras
/// may be behind the declaration.
pub open spec fn declares(line: Seq<char>, declaration: Seq<char>) -> bool {
    &&& is_declaration(declaration)
    &&& exists|left: Seq<char>, gap: Seq<char>, extras: Seq<char>, right: Seq<char>| #[trigger]
        is_declaring(line, left, declaration, gap, extras, right)
}

/// The parts of a line that declares something.
pub open spec fn is_declaring(
    line: Seq<char>,
    left: Seq<char>,
    declaration: Seq<char>,
    gap: Seq<char>,
    extras: Seq<char>,
    right: Seq<char>,
) -> bool {
    &&& text_laws::is_blank(left)
    &&& text_laws::is_blank(gap)
    &&& text_laws::is_blank(right)
    &&& {
        ||| line == left + declaration + right
        ||| line == left + (declaration + gap + seq!['['] + extras) + right && (extras.len() > 0
            ==> !text::is_white_space(extras[extras.len() - 1]))
    }
}

/// A line that says nothing: white space, a comment, or extras of nothing.
pub open spec fn is_silent(line: Seq<char>) -> bool {
    ||| text_laws::is_blank(line)
    ||| exists|left: Seq<char>, s: Seq<char>, right: Seq<char>| #[trigger]
        is_comment(line, left, s, right)
}

/// The parts of a comment, or of a line that begins with a bracket and is no
/// header.
pub open spec fn is_comment(
    line: Seq<char>,
    left: Seq<char>,
    s: Seq<char>,
    right: Seq<char>,
) -> bool {
    &&& text_laws::is_blank(left)
    &&& text_laws::is_blank(right)
    &&& text_laws::has_clean_ends(s)
    &&& s[0] == '#' || s[0] == ';' || (s[0] == '[' && s[s.len() - 1] != ']')
    &&& line == left + s + right
}

/// What a line under a header declares.
proof fn lemma_body_line(line: Seq<char>, declaration: Option<Seq<char>>)
    requires
        match declaration {
            Some(d) => declares(line, d),
            None => is_silent(line),
        },
    ensures
        entry_points::declared_script(line) == declaration,
        !entry_points::is_header(line),
{
    match declaration {
        Some(d) => {
            let (left, gap, extras, right) = choose|
                left: Seq<char>,
                gap: Seq<char>,
                extras: Seq<char>,
                right: Seq<char>,
            | #[trigger]
                is_declaring(line, left, d, gap, extras, right);
            let some = if extras.len() > 0 && text::is_white_space(extras[extras.len() - 1]) {
                Seq::<char>::empty()
            } else {
                extras
            };
            law_declared(left, d, gap, some, right);
            assert(d.contains(d[0]));
            let core = d + gap + seq!['['] + some;
            assert(core[0] == d[0]);
            assert(core[core.len() - 1] == if some.len() > 0 {
                some[some.len() - 1]
            } else {
                '['
            });
            law_no_header(left, d, right);
            law_no_header(left, core, right);
        },
        None => {
            if text_laws::is_blank(line) {
                text_laws::law_trim_blank(line);
            } else {
                let (left, s, right) = choose|left: Seq<char>, s: Seq<char>, right: Seq<char>|
                    #[trigger]
                    is_comment(line, left, s, right);
                law_not_declared(left, s, right);
                law_no_header(left, s, right);
            }
        },
    }
}

/// Lines are declared one by one.
proof fn lemma_body_lines(body: Seq<Seq<char>>, declarations: Seq<Option<Seq<char>>>)
    requires
        body.len() == declarations.len(),
        forall|i: int|
            0 <= i < body.len() ==> match #[trigger] declarations[i] {
                Some(d) => declares(body[i], d),
                None => is_silent(body[i]),
            },
    ensures
        body.filter_map(|line: Seq<char>| entry_points::declared_script(line))
            == declarations.filter_map(|d: Option<Seq<char>>| d),
        forall|i: int| 0 <= i < body.len() ==> !entry_points::is_header(#[trigger] body[i]),
    decreases body.len(),
{
    let f = |line: Seq<char>| entry_points::declared_script(line);
    let g = |d: Option<Seq<char>>| d;
    if body.len() > 0 {
        let (b, d) = (body.drop_last(), declarations.drop_last());
        assert forall|i: int| 0 <= i < b.len() implies match #[trigger] d[i] {
            Some(x) => declares(b[i], x),
            None => is_silent(b[i]),
        } by {
            assert(d[i] == declarations[i]);
        }
        lemma_body_lines(b, d);
        let n = body.len() - 1;
        assert(declarations[n] == declarations.last());
        lemma_body_line(body[n], declarations[n]);
        assert forall|i: int| 0 <= i < body.len() implies !entry_points::is_header(
            #[trigger] body[i],
        ) by {
            if i < n {
                assert(b[i] == body[i]);
            }
        }
        assert(body.last() == body[n]);
        assert(f(body.last()) == g(declarations.last()));
    } else {
        assert(body.filter_map(f) == declarations.filter_map(g));
    }
}

/// Whether a title is `console_scripts`, in whatever case its letters are.
pub open spec fn is_console_title(title: Seq<char>) -> bool {
    title.len() == 15 && forall|i: int|
        0 <= i < 15 ==> (#[trigger] title[i] == "console_scripts"@[i] || ('A' <= title[i] <= 'Z'
            && "console_scripts"@[i] as int == title[i] as int + 32))
}

/// A section that is put behind a file adds what its lines declare, all of it in
/// its order, if it is the section of the console scripts, and nothing
/// otherwise. What the file declares without it does not change.
pub proof fn law_section_of_a_file(
    before: Seq<Seq<char>>,
    left: Seq<char>,
    title: Seq<char>,
    right: Seq<char>,
    body: Seq<Seq<char>>,
    declarations: Seq<Option<Seq<char>>>,
    file: &str,
    longer_file: &str,
    scripts: Vec<String>,
    more_scripts: Vec<String>,
)
    requires
        text_laws::is_blank(left),
        text_laws::is_blank(right),
        body.len() == declarations.len(),
        forall|i: int|
            0 <= i < body.len() ==> match #[trigger] declarations[i] {
                Some(d) => declares(body[i], d),
                None => is_silent(body[i]),
            },
        text::lines(file@) == before,
        text::lines(longer_file@) == before + seq![left + (seq!['['] + title + seq![']']) + right]
            + body,
        call_ensures(entry_points::parse_console_scripts, (file,), scripts),
        call_ensures(entry_points::parse_console_scripts, (longer_file,), more_scripts),
    ensures
        record::string_views(more_scripts@) == record::string_views(scripts@) + if is_console_title(
            title,
        ) {
            declarations.filter_map(|d: Option<Seq<char>>| d)
        } else {
            Seq::<Seq<char>>::empty()
        },
{
    let header = left + (seq!['['] + title + seq![']']) + right;
    law_header(left, title, right);
    lemma_body_lines(body, declarations);
    entry_points::law_section(before, header, body);
    assert(is_console_title(title) <==> entry_points::is_console_header(header));
}

/// A file that has no section declares nothing.
pub proof fn law_file_without_sections(
    body: Seq<Seq<char>>,
    declarations: Seq<Option<Seq<char>>>,
    file: &str,
    scripts: Vec<String>,
)
    requires
        body.len() == declarations.len(),
        forall|i: int|
            0 <= i < body.len() ==> match #[trigger] declarations[i] {
                Some(d) => declares(body[i], d),
                None => is_silent(body[i]),
            },
        text::lines(file@) == body,
        call_ensures(entry_points::parse_console_scripts, (file,), scripts),
    ensures
        scripts@.len() == 0,
{
    lemma_body_lines(body, declarations);
    entry_points::law_no_section(body);
    assert(record::string_views(scripts@).len() == scripts@.len());
}

/// A file with the header of the console scripts and declarations under it
/// declares exactly those, whatever they are, in their order.
pub proof fn law_console_scripts(
    declarations: Seq<Seq<char>>,
    file: &str,
    scripts: Vec<String>,
)
    requires
        forall|i: int|
            0 <= i < declarations.len() ==> is_declaration(#[trigger] declarations[i])
                && !declarations[i].contains('\n'),
        file@ == text_of(seq!["[console_scripts]"@] + declarations),
        call_ensures(entry_points::parse_console_scripts, (file,), scripts),
    ensures
        scripts@.len() == declarations.len(),
        forall|i: int| 0 <= i < scripts@.len() ==> (#[trigger] scripts@[i])@ == declarations[i],
{
    let none = Seq::<Seq<char>>::empty();
    let empty = Seq::<char>::empty();
    let header = "[console_scripts]"@;
    let lines = seq![header] + declarations;
    reveal_strlit("[console_scripts]");
    reveal_strlit("console_scripts");
    assert forall|i: int| 0 <= i < lines.len() implies is_line(#[trigger] lines[i]) by {
        if i > 0 {
            let d = declarations[i - 1];
            assert(lines[i] == d);
            assert(is_declaration(d));
        }
    }
    lemma_text_of(lines);
    law_header(empty, "console_scripts"@, empty);
    assert(empty + (seq!['['] + "console_scripts"@ + seq![']']) + empty == header);
    assert forall|i: int| 0 <= i < declarations.len() implies !entry_points::is_header(
        #[trigger] declarations[i],
    ) by {
        let d = declarations[i];
        assert(d.contains(d[0]));
        law_no_header(empty, d, empty);
        assert(empty + d + empty == d);
    }
    entry_points::law_section(none, header, declarations);
    assert(none + seq![header] + declarations == lines);
    lemma_all_declared(declarations);
    let views = record::string_views(scripts@);
    assert(views == declarations);
    assert forall|i: int| 0 <= i < scripts@.len() implies (#[trigger] scripts@[i])@
        == declarations[i] by {
        assert(views[i] == declarations[i]);
    }
}

/// Declarations are declared one by one.
proof fn lemma_all_declared(declarations: Seq<Seq<char>>)
    requires
        forall|i: int| 0 <= i < declarations.len() ==> is_declaration(#[trigger] declarations[i]),
    ensures
        declarations.filter_map(|line: Seq<char>| entry_points::declared_script(line))
            == declarations,
    decreases declarations.len(),
{
    let empty = Seq::<char>::empty();
    if declarations.len() > 0 {
        let shorter = declarations.drop_last();
        assert forall|i: int| 0 <= i < shorter.len() implies is_declaration(#[trigger] shorter[i]) by {
            assert(shorter[i] == declarations[i]);
        }
        lemma_all_declared(shorter);
        let last = declarations[declarations.len() - 1];
        assert(is_declaration(last));
        law_declared(empty, last, empty, empty, empty);
        assert(shorter.push(last) == declarations);
    }
}

/// A wheel declares what its file declares; one without the file declares
/// nothing, and other failures are told by where they come from.
pub proof fn law_read_entry_points(
    content: Result<Result<String, IoError>, IoError>,
    read: Result<Vec<String>, WheelInstallError>,
    file: &str,
    scripts: Vec<String>,
)
    requires
        call_ensures(entry_points::read_console_script_entry_points, (content,), read),
        call_ensures(entry_points::parse_console_scripts, (file,), scripts),
    ensures
        match content {
            Ok(Ok(c)) => c@ == file@ ==> (read matches Ok(s) && record::string_views(s@)
                == record::string_views(scripts@)),
            Ok(Err(e)) => if e.kind == IoErrorKind::NotFound {
                read matches Ok(s) && s@.len() == 0
            } else {
                read matches Err(WheelInstallError::FailedToReadEntryPoints(cause)) && cause == e
            },
            Err(e) => read matches Err(WheelInstallError::FailedToReadRecord(cause)) && cause == e,
        },
        content matches Ok(Ok(_)) ==> read is Ok,
{
}

/// Every declaration that is an entry point is kept, in its place among the
/// others, and nothing else is: what is kept of two rows is what is kept of the
/// first and, behind it, what is kept of the second.
pub proof fn law_valid_entry_points(
    first: Vec<Option<EntryPoint>>,
    last: Vec<Option<EntryPoint>>,
    whole: Vec<Option<EntryPoint>>,
    first_kept: Vec<EntryPoint>,
    last_kept: Vec<EntryPoint>,
    kept: Vec<EntryPoint>,
)
    requires
        call_ensures(entry_points::valid_entry_points, (first,), first_kept),
        call_ensures(entry_points::valid_entry_points, (last,), last_kept),
        call_ensures(entry_points::valid_entry_points, (whole,), kept),
        whole@ == first@ + last@,
    ensures
        kept@ == first_kept@ + last_kept@,
        first@.len() == 0 ==> first_kept@.len() == 0,
        first@.len() == 1 ==> match first@[0] {
            Some(point) => first_kept@ == seq![point],
            None => first_kept@.len() == 0,
        },
{
    let f = |p: Option<EntryPoint>| p;
    text::lemma_filter_map_concat(first@, last@, f);
    let none = Seq::<Option<EntryPoint>>::empty();
    assert(none.filter_map(f).len() == 0);
    if first@.len() == 1 {
        assert(first@.drop_last() == none);
        assert(first@.last() == first@[0]);
        if let Some(point) = first@[0] {
            assert(first_kept@ == none.filter_map(f).push(point));
            assert(first_kept@ == seq![point]);
        }
    }
}

/// A directory whose name is anything and `.dist-info`.
pub open spec fn is_dist_info_named(entry: Result<DirEntry, IoError>, name: Seq<char>) -> bool {
    entry matches Ok(e) && e.is_dir && e.name@ == name + ".dist-info"@
}

/// Whether something can be read and is no `.dist-info` directory.
pub open spec fn is_another(entry: Result<DirEntry, IoError>) -> bool {
    entry is Ok && forall|name: Seq<char>| !#[trigger] is_dist_info_named(entry, name)
}

/// What is a `.dist-info` directory.
proof fn lemma_dist_info(listing: Seq<Result<DirEntry, IoError>>, i: int, name: Seq<char>)
    ensures
        is_dist_info_named(listing[i], name) ==> dist_info::holds_dist_info(listing, i),
        is_another(listing[i]) ==> !dist_info::holds_dist_info(listing, i),
{
    category_laws::lemma_suffix(name, ".dist-info"@);
    if is_another(listing[i]) && dist_info::holds_dist_info(listing, i) {
        let e = listing[i]->Ok_0;
        category_laws::lemma_has_suffix(e.name@, ".dist-info"@);
        let stem = e.name@.take(e.name@.len() - ".dist-info"@.len());
        assert(is_dist_info_named(listing[i], stem));
    }
}

/// A `.dist-info` directory, whatever its name begins with, is found wherever it
/// is among other things.
pub proof fn law_dist_info_is_found(
    listing: &Vec<Result<DirEntry, IoError>>,
    found: Result<usize, IoError>,
    k: int,
    name: Seq<char>,
)
    requires
        call_ensures(dist_info::find_dist_info_dir, (listing,), found),
        0 <= k < listing.len(),
        is_dist_info_named(listing[k], name),
        forall|j: int| 0 <= j < listing.len() && j != k ==> is_another(#[trigger] listing[j]),
    ensures
        found matches Ok(i) && i == k,
{
    let listing = listing@;
    lemma_dist_info(listing, k, name);
    assert forall|j: int| 0 <= j < listing.len() && j != k implies !dist_info::holds_dist_info(
        listing,
        j,
    ) && (#[trigger] listing[j]) is Ok by {
        lemma_dist_info(listing, j, name);
    }
    assert(listing[k] is Ok);
    assert forall|j: int| 0 <= j < listing.len() implies !#[trigger] dist_info::stops_at(
        listing,
        j,
    ) by {
        assert(listing[j] is Ok);
    }
}

/// A listing without a `.dist-info` directory has none.
pub proof fn law_no_dist_info(
    listing: &Vec<Result<DirEntry, IoError>>,
    found: Result<usize, IoError>,
)
    requires
        call_ensures(dist_info::find_dist_info_dir, (listing,), found),
        forall|j: int| 0 <= j < listing.len() ==> is_another(#[trigger] listing[j]),
    ensures
        found matches Err(e) && e.kind == IoErrorKind::NotFound && e.message@
            == "could not find a '*.dist-info' directory in wheel archive"@,
{
    let listing = listing@;
    assert forall|j: int| 0 <= j < listing.len() implies !dist_info::holds_dist_info(listing, j)
        && (#[trigger] listing[j]) is Ok by {
        lemma_dist_info(listing, j, Seq::<char>::empty());
    }
    assert forall|j: int| 0 <= j < listing.len() implies !#[trigger] dist_info::stops_at(
        listing,
        j,
    ) by {
        assert(listing[j] is Ok);
    }
}

/// A second `.dist-info` directory is a failure, as long as everything before it
/// can be read.
pub proof fn law_two_dist_infos(
    listing: &Vec<Result<DirEntry, IoError>>,
    found: Result<usize, IoError>,
    i: int,
    k: int,
    first: Seq<char>,
    second: Seq<char>,
)
    requires
        call_ensures(dist_info::find_dist_info_dir, (listing,), found),
        0 <= i < k < listing.len(),
        is_dist_info_named(listing[i], first),
        is_dist_info_named(listing[k], second),
        forall|j: int| 0 <= j < k && j != i ==> is_another(#[trigger] listing[j]),
    ensures
        found matches Err(e) && e.kind == IoErrorKind::InvalidData && e.message@
            == "found multiple '*.dist-info' directories in wheel archive"@,
{
    let listing = listing@;
    lemma_dist_info(listing, i, first);
    lemma_dist_info(listing, k, second);
    assert(dist_info::stops_at(listing, k));
    assert(listing[i] is Ok);
    assert forall|j: int| 0 <= j < k implies !#[trigger] dist_info::stops_at(listing, j) by {
        assert forall|m: int| 0 <= m < k && m != i implies !#[trigger] dist_info::holds_dist_info(
            listing,
            m,
        ) by {
            assert(is_another(listing[m]));
            lemma_dist_info(listing, m, first);
        }
        if j != i {
            assert(is_another(listing[j]));
        }
    }
    assert(dist_info::stops_first_at(listing, k));
    lemma_stop(listing, found, k);
}

/// Something that cannot be read is a failure, unless there were two
/// `.dist-info` directories before it.
pub proof fn law_unreadable_listing(
    listing: &Vec<Result<DirEntry, IoError>>,
    found: Result<usize, IoError>,
    i: int,
    k: int,
    cause: IoError,
)
    requires
        call_ensures(dist_info::find_dist_info_dir, (listing,), found),
        0 <= k < listing.len(),
        listing[k] == Err::<DirEntry, _>(cause),
        0 <= i < k ==> listing[i] is Ok,
        forall|j: int| 0 <= j < k && j != i ==> is_another(#[trigger] listing[j]),
    ensures
        found matches Err(e) && e.kind == cause.kind && e.message@ == cause.message@,
{
    let listing = listing@;
    let none = Seq::<char>::empty();
    assert(dist_info::stops_at(listing, k));
    assert forall|j: int| 0 <= j < k implies !#[trigger] dist_info::stops_at(listing, j) by {
        assert forall|m: int| 0 <= m < k && m != i implies !#[trigger] dist_info::holds_dist_info(
            listing,
            m,
        ) by {
            assert(is_another(listing[m]));
            lemma_dist_info(listing, m, none);
        }
        if j != i {
            assert(is_another(listing[j]));
        }
    }
    assert(dist_info::stops_first_at(listing, k));
    lemma_stop(listing, found, k);
}

/// The search ends where it stops first.
proof fn lemma_stop(
    listing: Seq<Result<DirEntry, IoError>>,
    found: Result<usize, IoError>,
    k: int,
)
    requires
        dist_info::is_found(listing, found),
        dist_info::stops_first_at(listing, k),
    ensures
        found matches Err(e) && match listing[k] {
            Err(cause) => e.says(cause.kind, cause.message@),
            Ok(_) => e.says(
                IoErrorKind::InvalidData,
                "found multiple '*.dist-info' directories in wheel archive"@,
            ),
        },
{
    let ok = listing[k] is Ok;
    if ok {
        assert(dist_info::holds_dist_info(listing, k));
        let j = choose|j: int| 0 <= j < k && #[trigger] dist_info::holds_dist_info(listing, j);
        assert(dist_info::holds_dist_info(listing, j));
        assert(listing[j] is Ok);
    }
    match found {
        Ok(i) => {
            if i != k {
                assert(listing[k] is Ok);
                assert(!dist_info::holds_dist_info(listing, k));
            } else {
                let j = choose|j: int| 0 <= j < k && #[trigger] dist_info::holds_dist_info(listing, j);
                assert(listing[j] is Ok && !dist_info::holds_dist_info(listing, j));
            }
        },
        Err(e) => {
            assert forall|m: int| #[trigger] dist_info::stops_first_at(listing, m) implies m
                == k by {
                if m < k {
                    assert(!dist_info::stops_at(listing, m));
                } else if k < m {
                    assert(!dist_info::stops_at(listing, k));
                }
            }
        },
    }
}

} // verus!
