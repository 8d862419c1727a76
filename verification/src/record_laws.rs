//! What a `RECORD` file says is read back from it.
use crate::error::IoError;
use crate::hash;
use crate::record;
use crate::record::{EntryView, WheelRecord, WheelRecordEntry};
use crate::text;
use crate::text_laws;
use vstd::prelude::*;
use vstd::string::*;

verus! {

/// A text with every quotation mark written twice.
pub open spec fn doubled(s: Seq<char>) -> Seq<char>
    decreases s.len(),
{
    if s.len() == 0 {
        seq![]
    } else if s[0] == '"' {
        seq!['"', '"'] + doubled(s.drop_first())
    } else {
        seq![s[0]] + doubled(s.drop_first())
    }
}

/// A field as it is written, in quotation marks or plain.
pub open spec fn written_field(field: Seq<char>, quoted: bool) -> Seq<char> {
    if quoted {
        seq!['"'] + doubled(field) + seq!['"']
    } else {
        field
    }
}

/// A field that can do without quotation marks.
pub open spec fn may_be_plain(field: Seq<char>) -> bool {
    &&& !field.contains(',')
    &&& field.len() > 0 ==> field[0] != '"'
}

/// Fields as they are written in a line.
pub open spec fn written_line(fields: Seq<(Seq<char>, bool)>) -> Seq<char>
    decreases fields.len(),
{
    if fields.len() == 0 {
        seq![]
    } else if fields.len() == 1 {
        written_field(fields[0].0, fields[0].1)
    } else {
        written_field(fields[0].0, fields[0].1) + seq![','] + written_line(fields.drop_first())
    }
}

/// The inside of quotation marks is read as the text it was written for.
proof fn lemma_quoted(field: Seq<char>, tail: Seq<char>, current: Seq<char>)
    requires
        tail.len() > 0 ==> tail[0] != '"',
    ensures
        record::fields_from(doubled(field) + seq!['"'] + tail, true, current)
            == record::fields_from(tail, false, current + field),
    decreases field.len(),
{
    let s = doubled(field) + seq!['"'] + tail;
    if field.len() == 0 {
        assert(s == seq!['"'] + tail);
        assert(s.drop_first() == tail);
        assert(current + field == current);
    } else {
        let next = doubled(field.drop_first()) + seq!['"'] + tail;
        let c = field[0];
        lemma_quoted(field.drop_first(), tail, current.push(c));
        assert(current.push(c) + field.drop_first() == current + field);
        if c == '"' {
            assert(s == seq!['"', '"'] + next);
            assert(s.drop_first()[0] == '"');
            assert(s.drop_first().drop_first() == next);
        } else {
            assert(s == seq![c] + next);
            assert(s.drop_first() == next);
        }
    }
}

/// A plain field is read as it stands.
proof fn lemma_plain(field: Seq<char>, tail: Seq<char>, current: Seq<char>)
    requires
        !field.contains(','),
        current.len() == 0 && field.len() > 0 ==> field[0] != '"',
    ensures
        record::fields_from(field + tail, false, current) == record::fields_from(
            tail,
            false,
            current + field,
        ),
    decreases field.len(),
{
    if field.len() == 0 {
        assert(field + tail == tail);
        assert(current + field == current);
    } else {
        let c = field[0];
        let next = field.drop_first();
        assert(field.contains(c));
        assert forall|x: char| next.contains(x) implies field.contains(x) by {
            let i = choose|i: int| 0 <= i < next.len() && next[i] == x;
            assert(field[i + 1] == x);
        }
        lemma_plain(next, tail, current.push(c));
        assert(current.push(c) + next == current + field);
        assert((field + tail).drop_first() == next + tail);
    }
}

/// A written field is read as the field it was written for.
proof fn lemma_field(field: Seq<char>, quoted: bool, tail: Seq<char>)
    requires
        quoted || may_be_plain(field),
        tail.len() > 0 ==> tail[0] != '"',
    ensures
        record::fields_from(written_field(field, quoted) + tail, false, seq![])
            == record::fields_from(tail, false, field),
{
    let empty = Seq::<char>::empty();
    assert(empty + field == field);
    if quoted {
        let s = written_field(field, true) + tail;
        lemma_quoted(field, tail, empty);
        assert(s.drop_first() == doubled(field) + seq!['"'] + tail);
    } else {
        lemma_plain(field, tail, empty);
    }
}

/// The fields of a line are read back, whether they are quoted or, where they
/// can be, plain.
pub proof fn law_fields_round_trip(fields: Seq<(Seq<char>, bool)>)
    requires
        fields.len() > 0,
        forall|i: int|
            0 <= i < fields.len() ==> (#[trigger] fields[i]).1 || may_be_plain(fields[i].0),
    ensures
        record::record_fields(written_line(fields)) == fields.map_values(
            |f: (Seq<char>, bool)| f.0,
        ),
    decreases fields.len(),
{
    let first = fields[0].0;
    let quoted = fields[0].1;
    let texts = fields.map_values(|f: (Seq<char>, bool)| f.0);
    if fields.len() == 1 {
        let empty = Seq::<char>::empty();
        lemma_field(first, quoted, empty);
        assert(written_line(fields) == written_field(first, quoted) + empty);
        assert(record::fields_from(empty, false, first) == seq![first]);
        assert(texts == seq![first]);
    } else {
        let others = fields.drop_first();
        assert forall|i: int| 0 <= i < others.len() implies (#[trigger] others[i]).1
            || may_be_plain(others[i].0) by {
            assert(others[i] == fields[i + 1]);
        }
        law_fields_round_trip(others);
        let tail = seq![','] + written_line(others);
        lemma_field(first, quoted, tail);
        assert(written_line(fields) == written_field(first, quoted) + tail);
        assert(tail.drop_first() == written_line(others));
        assert(texts == seq![first] + others.map_values(|f: (Seq<char>, bool)| f.0));
    }
}

/// A text with a character that is no white space is not all white space.
proof fn lemma_trim_end_keeps(s: Seq<char>, c: char)
    requires
        s.contains(c),
        !text::is_white_space(c),
    ensures
        text::trim_end(s).len() > 0,
    decreases s.len(),
{
    let i = choose|i: int| 0 <= i < s.len() && s[i] == c;
    if text::is_white_space(s.last()) {
        assert(s.drop_last()[i] == c);
        lemma_trim_end_keeps(s.drop_last(), c);
    }
}

/// Trimming keeps the characters that are no white space.
proof fn lemma_trim_keeps(s: Seq<char>, c: char)
    requires
        s.contains(c),
        !text::is_white_space(c),
    ensures
        text::trim(s).len() > 0,
    decreases s.len(),
{
    let i = choose|i: int| 0 <= i < s.len() && s[i] == c;
    if text::is_white_space(s[0]) {
        assert(s.drop_first()[i - 1] == c);
        lemma_trim_keeps(s.drop_first(), c);
    } else {
        lemma_trim_end_keeps(s, c);
    }
}

/// The letters of the base64 alphabet, the digits, and the characters of the
/// prefix of a hash: none of them means anything in a line.
pub open spec fn is_harmless(c: char) -> bool {
    c != ',' && c != '"' && c != '\n' && c != '\r'
}

/// A text of harmless characters.
pub open spec fn all_harmless(s: Seq<char>) -> bool {
    forall|i: int| 0 <= i < s.len() ==> is_harmless(#[trigger] s[i])
}

/// An encoding has harmless letters.
proof fn lemma_base64_harmless(data: Seq<u8>)
    ensures
        all_harmless(hash::base64_url(data)),
    decreases data.len(),
{
    if data.len() >= 3 {
        lemma_base64_harmless(data.skip(3));
    }
}

/// The hash that a line gives of a file.
pub open spec fn hash_text(sha256: Option<Seq<u8>>) -> Seq<char> {
    match sha256 {
        Some(digest) => hash::hash_field(digest),
        None => seq![],
    }
}

/// The size that a line gives of a file.
pub open spec fn size_text(size: Option<u64>) -> Seq<char> {
    match size {
        Some(n) => text::decimal_text(n as nat),
        None => seq![],
    }
}

/// A hash is written in harmless characters and read back.
proof fn lemma_hash_text(sha256: Option<Seq<u8>>)
    requires
        sha256 matches Some(digest) ==> digest.len() == 32,
    ensures
        all_harmless(hash_text(sha256)),
        hash::record_hash(hash_text(sha256)) == sha256,
{
    reveal_strlit("sha256=");
    match sha256 {
        Some(digest) => {
            lemma_base64_harmless(digest);
            hash::law_record_hash(digest);
            let field = hash::hash_field(digest);
            assert forall|i: int| 0 <= i < field.len() implies is_harmless(#[trigger] field[i]) by {
                if i >= 7 {
                    assert(field[i] == hash::base64_url(digest)[i - 7]);
                }
            }
        },
        None => {
            record::lemma_empty_hash(hash_text(sha256));
        },
    }
}

/// A size is written in harmless characters and read back.
proof fn lemma_size_text(size: Option<u64>)
    ensures
        all_harmless(size_text(size)),
        text::decimal(size_text(size)) == size,
{
    match size {
        Some(n) => {
            text::law_decimal_round_trip(n);
        },
        None => {},
    }
}

/// An entry that a line can list.
pub open spec fn can_be_listed(e: EntryView, quoted: bool) -> bool {
    &&& e.archive_path.len() > 0
    &&& !e.archive_path.contains('\n')
    &&& quoted || may_be_plain(e.archive_path)
    &&& e.sha256 matches Some(digest) ==> digest.len() == 32
}

/// The line that lists a file.
pub open spec fn entry_line(e: EntryView, quoted: bool) -> Seq<char> {
    written_line(
        seq![(e.archive_path, quoted), (hash_text(e.sha256), false), (size_text(e.size), false)],
    )
}

/// Doubling quotation marks makes no line feed.
proof fn lemma_doubled(s: Seq<char>)
    requires
        !s.contains('\n'),
    ensures
        !doubled(s).contains('\n'),
    decreases s.len(),
{
    if s.len() > 0 {
        assert(s.contains(s[0]));
        let next = s.drop_first();
        if next.contains('\n') {
            let i = choose|i: int| 0 <= i < next.len() && next[i] == '\n';
            assert(s[i + 1] == '\n');
        }
        lemma_doubled(next);
        let head = if s[0] == '"' {
            seq!['"', '"']
        } else {
            seq![s[0]]
        };
        if doubled(s).contains('\n') {
            let i = choose|i: int| 0 <= i < doubled(s).len() && doubled(s)[i] == '\n';
            if i >= head.len() {
                assert(doubled(next)[i - head.len()] == '\n');
            }
        }
    }
}

/// What the line of a file looks like: it has a comma, it has no line feed and
/// does not end with a carriage return.
proof fn lemma_entry_line(e: EntryView, quoted: bool)
    requires
        can_be_listed(e, quoted),
    ensures
        entry_line(e, quoted).contains(','),
        !entry_line(e, quoted).contains('\n'),
        entry_line(e, quoted).len() > 0,
        entry_line(e, quoted).last() != '\r',
        record::line_entry(entry_line(e, quoted)) == Some(e),
{
    let path = written_field(e.archive_path, quoted);
    let h = hash_text(e.sha256);
    let z = size_text(e.size);
    let line = entry_line(e, quoted);
    let fields = seq![(e.archive_path, quoted), (h, false), (z, false)];
    lemma_hash_text(e.sha256);
    lemma_size_text(e.size);
    lemma_doubled(e.archive_path);
    reveal_with_fuel(written_line, 3);
    assert(fields.drop_first()[0] == (h, false));
    assert(fields.drop_first().drop_first()[0] == (z, false));
    assert(line == path + seq![','] + (h + seq![','] + z));
    assert(line[path.len() as int] == ',');
    assert(!path.contains('\n')) by {
        if quoted && path.contains('\n') {
            let i = choose|i: int| 0 <= i < path.len() && path[i] == '\n';
            assert(doubled(e.archive_path)[i - 1] == '\n');
        }
    }
    if line.contains('\n') {
        let i = choose|i: int| 0 <= i < line.len() && line[i] == '\n';
        let n = path.len() as int;
        if i < n {
            assert(path[i] == '\n');
        } else if n < i < n + 1 + h.len() {
            assert(h[i - n - 1] == '\n');
        } else if i > n + 1 + h.len() {
            assert(z[i - n - 2 - h.len()] == '\n');
        }
    }
    if z.len() > 0 {
        assert(line.last() == z[z.len() - 1]);
    }
    assert(may_be_plain(h) && may_be_plain(z));
    law_fields_round_trip(fields);
    lemma_trim_keeps(line, ',');
    assert(fields.map_values(|f: (Seq<char>, bool)| f.0) == seq![e.archive_path, h, z]);
}

/// A line ending: a line feed, perhaps after a carriage return.
pub open spec fn line_ending(with_return: bool) -> Seq<char> {
    if with_return {
        seq!['\r', '\n']
    } else {
        seq!['\n']
    }
}

/// The text that lists files, each in a line. The flag of a file tells whether
/// its path is in quotation marks.
pub open spec fn record_text(files: Seq<(EntryView, bool)>, with_return: bool) -> Seq<char>
    decreases files.len(),
{
    if files.len() == 0 {
        seq![]
    } else {
        entry_line(files[0].0, files[0].1) + line_ending(with_return) + record_text(
            files.drop_first(),
            with_return,
        )
    }
}

/// A line with its ending in front of a text is the first of its lines.
proof fn lemma_first_line(line: Seq<char>, with_return: bool, rest: Seq<char>)
    requires
        !line.contains('\n'),
        line.len() > 0,
        line.last() != '\r',
    ensures
        text::lines(line + line_ending(with_return) + rest) == seq![line] + text::lines(rest),
{
    let s = line + line_ending(with_return) + rest;
    let end = if with_return {
        line.len() as int + 1
    } else {
        line.len() as int
    };
    assert(s[end] == '\n');
    assert forall|j: int| 0 <= j < end implies s[j] != '\n' by {
        if j < line.len() {
            assert(line.contains(line[j]));
        }
    }
    text::lemma_position_is(s, '\n', end);
    assert(s.skip(end + 1) == rest);
    if with_return {
        assert(s.take(end).drop_last() == line);
    } else {
        assert(s.take(end) == line);
    }
}

/// The files that a `RECORD` lists are read back from it, with their hashes
/// and sizes and in their order. Only a path that is empty or has a line feed
/// in it cannot be listed.
pub proof fn law_record_round_trip(files: Seq<(EntryView, bool)>, with_return: bool)
    requires
        forall|i: int|
            0 <= i < files.len() ==> can_be_listed((#[trigger] files[i]).0, files[i].1),
    ensures
        record::record_entries(record_text(files, with_return)) == files.map_values(
            |f: (EntryView, bool)| f.0,
        ),
    decreases files.len(),
{
    let f = |line: Seq<char>| record::line_entry(line);
    let entries = files.map_values(|f: (EntryView, bool)| f.0);
    let s = record_text(files, with_return);
    if files.len() == 0 {
        assert(text::lines(s) == Seq::<Seq<char>>::empty());
        assert(entries == Seq::<EntryView>::empty());
    } else {
        let others = files.drop_first();
        assert forall|i: int| 0 <= i < others.len() implies can_be_listed(
            (#[trigger] others[i]).0,
            others[i].1,
        ) by {
            assert(others[i] == files[i + 1]);
        }
        law_record_round_trip(others, with_return);
        let rest = record_text(others, with_return);
        let line = entry_line(files[0].0, files[0].1);
        lemma_entry_line(files[0].0, files[0].1);
        lemma_first_line(line, with_return, rest);
        text::lemma_filter_map_concat(seq![line], text::lines(rest), f);
        Seq::lemma_filter_map_singleton(line, f);
        assert(entries == seq![files[0].0] + others.map_values(|f: (EntryView, bool)| f.0));
    }
}

/// The beginning of a line up to the end of its first field: plain, or in
/// quotation marks with more behind them.
pub open spec fn is_written_as(written: Seq<char>, field: Seq<char>) -> bool {
    ||| may_be_plain(field) && written == field
    ||| exists|inside: Seq<char>, behind: Seq<char>| #[trigger]
        is_quoted_as(written, field, inside, behind)
}

/// A field in quotation marks, with more behind them.
pub open spec fn is_quoted_as(
    written: Seq<char>,
    field: Seq<char>,
    inside: Seq<char>,
    behind: Seq<char>,
) -> bool {
    &&& written == seq!['"'] + doubled(inside) + seq!['"'] + behind
    &&& field == inside + behind
    &&& !behind.contains(',')
    &&& behind.len() > 0 ==> behind[0] != '"'
}

/// What is written for a field is read as that field.
proof fn lemma_written_as(written: Seq<char>, field: Seq<char>, tail: Seq<char>)
    requires
        is_written_as(written, field),
        tail.len() > 0 ==> tail[0] == ',',
    ensures
        record::fields_from(written + tail, false, seq![]) == record::fields_from(
            tail,
            false,
            field,
        ),
{
    let empty = Seq::<char>::empty();
    if may_be_plain(field) && written == field {
        lemma_plain(field, tail, empty);
        assert(empty + field == field);
    } else {
        let (inside, behind) = choose|inside: Seq<char>, behind: Seq<char>| #[trigger]
            is_quoted_as(written, field, inside, behind);
        let s = written + tail;
        assert(s.drop_first() == doubled(inside) + seq!['"'] + (behind + tail));
        lemma_quoted(inside, behind + tail, empty);
        assert(empty + inside == inside);
        lemma_plain(behind, tail, inside);
    }
}

/// Inside quotation marks that are never closed everything belongs to the
/// field.
proof fn lemma_unclosed(field: Seq<char>, current: Seq<char>)
    ensures
        record::fields_from(doubled(field), true, current) == seq![current + field],
    decreases field.len(),
{
    let s = doubled(field);
    if field.len() == 0 {
        assert(current + field == current);
    } else {
        let next = doubled(field.drop_first());
        if field[0] == '"' {
            assert(s.drop_first().drop_first() == next);
        } else {
            assert(s.drop_first() == next);
        }
        lemma_unclosed(field.drop_first(), current.push(field[0]));
        assert(current.push(field[0]) + field.drop_first() == current + field);
    }
}

/// A line is split at its commas: its first field is what is written up to the
/// first comma that is not in quotation marks, and the other fields are those
/// of the line behind that comma. A line without such a comma has one field.
pub proof fn law_first_field(
    line: &str,
    fields: Vec<String>,
    rest: &str,
    other_fields: Vec<String>,
    written: Seq<char>,
    field: Seq<char>,
)
    requires
        call_ensures(record::split_record_line, (line,), fields),
        call_ensures(record::split_record_line, (rest,), other_fields),
    ensures
        is_written_as(written, field) && line@ == written + seq![','] + rest@ ==> fields@.len()
            == other_fields@.len() + 1 && fields@[0]@ == field && forall|k: int|
            0 <= k < other_fields@.len() ==> (#[trigger] other_fields@[k])@ == fields@[k + 1]@,
        is_written_as(written, field) && line@ == written ==> fields@.len() == 1 && fields@[0]@
            == field,
        line@ == seq!['"'] + doubled(field) ==> fields@.len() == 1 && fields@[0]@ == field,
{
    let empty = Seq::<char>::empty();
    let views = record::string_views(fields@);
    let others = record::string_views(other_fields@);
    if fields@.len() > 0 {
        assert(views[0] == fields@[0]@);
    }
    if is_written_as(written, field) && line@ == written + seq![','] + rest@ {
        let tail = seq![','] + rest@;
        assert(line@ == written + tail);
        lemma_written_as(written, field, tail);
        assert(tail.drop_first() == rest@);
        assert(views == seq![field] + others);
        assert forall|k: int| 0 <= k < other_fields@.len() implies (
        #[trigger] other_fields@[k])@ == fields@[k + 1]@ by {
            assert(views[k + 1] == others[k]);
        }
    }
    if is_written_as(written, field) && line@ == written {
        lemma_written_as(written, field, empty);
        assert(written + empty == written);
    }
    if line@ == seq!['"'] + doubled(field) {
        assert(line@.drop_first() == doubled(field));
        lemma_unclosed(field, empty);
        assert(empty + field == field);
    }
}

/// Whether an entry is what a line with some fields lists: the first one is the
/// path, to the letter, the second one gives the digest and the third one the
/// size, as far as they are there and can be read.
pub open spec fn is_listed(
    entry: WheelRecordEntry,
    fields: Seq<String>,
    digest: Option<[u8; 32]>,
    size: Option<u64>,
) -> bool {
    &&& entry.archive_path@ == fields[0]@
    &&& match (entry.sha256, digest) {
        (Some(listed), Some(given)) => fields.len() > 1 && listed@ == given@,
        (None, Some(_)) => fields.len() <= 1,
        (None, None) => true,
        (Some(_), None) => false,
    }
    &&& entry.size == if fields.len() > 2 {
        size
    } else {
        None
    }
}

/// Whether a text is a line and, behind its ending, another text. The last line
/// needs no ending.
pub open spec fn is_line_before(line: Seq<char>, rest: Seq<char>, content: Seq<char>) -> bool {
    ||| content == line + seq!['\r', '\n'] + rest
    ||| (line.len() == 0 || line[line.len() - 1] != '\r') && content == line + seq!['\n'] + rest
    ||| line.len() > 0 && rest.len() == 0 && content == line
}

/// A `RECORD` is read line by line. A line lists a file if it is not white space
/// and its first field is not empty, and then it lists the file of that name,
/// whatever the name is and whatever the other fields are. The files of the
/// lines behind it are listed behind that one, and every text can be read.
pub proof fn law_first_line(
    content: &str,
    listed: Result<WheelRecord, IoError>,
    rest: &str,
    others: Result<WheelRecord, IoError>,
    line: &str,
    fields: Vec<String>,
    second: &str,
    digest: Option<[u8; 32]>,
    third: &[char],
    size: Option<u64>,
)
    requires
        call_ensures(WheelRecord::parse, (content,), listed),
        call_ensures(WheelRecord::parse, (rest,), others),
        call_ensures(record::split_record_line, (line,), fields),
        call_ensures(hash::parse_record_hash, (second,), digest),
        call_ensures(text::parse_decimal, (third,), size),
        fields@.len() > 1 ==> second@ == fields@[1]@,
        fields@.len() > 2 ==> third@ == fields@[2]@,
        !line@.contains('\n'),
        is_line_before(line@, rest@, content@),
    ensures
        listed is Ok && others is Ok,
        text_laws::is_blank(line@) || fields@[0]@.len() == 0 ==> listed->Ok_0@ == others->Ok_0@,
        !text_laws::is_blank(line@) && fields@[0]@.len() > 0 ==> {
            let (es, os) = (listed->Ok_0.entries@, others->Ok_0.entries@);
            &&& es.len() == os.len() + 1
            &&& is_listed(es[0], fields@, digest, size)
            &&& forall|k: int| 0 <= k < os.len() ==> (#[trigger] os[k])@ == es[k + 1]@
        },
{
    let f = |l: Seq<char>| record::line_entry(l);
    text_laws::law_lines(line@, rest@);
    let lines = text::lines(rest@);
    if line@.len() > 0 && rest@.len() == 0 && content@ == line@ {
        assert(rest@ == Seq::<char>::empty());
        assert(seq![line@] + lines == seq![line@]);
    }
    assert(text::lines(content@) == seq![line@] + lines);
    text::lemma_filter_map_concat(seq![line@], lines, f);
    Seq::lemma_filter_map_singleton(line@, f);
    let views = record::string_views(fields@);
    assert(views[0] == fields@[0]@);
    lemma_blank(line@);
    let (l, o) = (listed->Ok_0, others->Ok_0);
    if text_laws::is_blank(line@) || fields@[0]@.len() == 0 {
        assert(l@ == o@);
    } else {
        if fields@.len() > 1 {
            assert(views[1] == fields@[1]@);
        }
        if fields@.len() > 2 {
            assert(views[2] == fields@[2]@);
        }
        let e = record::line_entry(line@)->Some_0;
        assert(l@ == seq![e] + o@);
        assert(l@.len() == l.entries@.len());
        assert(l@[0] == l.entries@[0]@);
        assert forall|k: int| 0 <= k < o.entries@.len() implies (#[trigger] o.entries@[k])@
            == l.entries@[k + 1]@ by {
            assert(l@[k + 1] == o@[k]);
        }
    }
}

/// A line of white space alone is left with nothing when its ends are cut off,
/// and no other line is.
proof fn lemma_blank(line: Seq<char>)
    ensures
        text_laws::is_blank(line) <==> text::trim(line).len() == 0,
{
    if text_laws::is_blank(line) {
        text_laws::law_trim_blank(line);
    } else {
        let i = choose|i: int| 0 <= i < line.len() && !text::is_white_space(#[trigger] line[i]);
        assert(line.contains(line[i]));
        lemma_trim_keeps(line, line[i]);
    }
}

/// An empty `RECORD` lists nothing, as one does that is not read at all; a
/// `RECORD` that was read from a directory lists what it lists, and one that
/// could not be read is that failure.
pub proof fn law_whole_record(
    empty: &str,
    nothing: Result<WheelRecord, IoError>,
    content: Result<String, IoError>,
    read: Result<WheelRecord, IoError>,
    text: &str,
    listed: Result<WheelRecord, IoError>,
    unread: WheelRecord,
)
    requires
        call_ensures(WheelRecord::parse, (empty,), nothing),
        empty@.len() == 0,
        call_ensures(WheelRecord::from_extracted_directory, (content,), read),
        call_ensures(WheelRecord::parse, (text,), listed),
        call_ensures(WheelRecord::default, (), unread),
    ensures
        nothing matches Ok(r) && r.entries@.len() == 0,
        unread.entries@.len() == 0,
        match content {
            Ok(c) => read is Ok && (c@ == text@ ==> read->Ok_0@ == listed->Ok_0@),
            Err(cause) => read matches Err(e) && e == cause,
        },
{
    assert(text::lines(empty@).len() == 0);
    assert(nothing->Ok_0@.len() == 0);
    assert(unread@.len() == unread.entries@.len());
}

} // verus!
