//! The manifest of a wheel: its `RECORD` file.
//!
//! `RECORD` has a line for every file of the wheel, with three fields: the
//! path of the file, its hash and its size. The last two may be empty. Fields
//! are separated by commas. A field that begins with a quotation mark goes on
//! to the next single one, and two of them inside it stand for one.
use crate::category;
use crate::error::IoError;
use crate::hash;
use crate::text;
use vstd::prelude::*;
use vstd::string::*;

verus! {

/// The fields of a line, from a point on. `quoted` tells whether that point is
/// inside quotation marks, `current` is what the field holds up to there.
pub open spec fn fields_from(rest: Seq<char>, quoted: bool, current: Seq<char>) -> Seq<Seq<char>>
    decreases rest.len(),
{
    if rest.len() == 0 {
        seq![current]
    } else {
        let c = rest[0];
        let tail = rest.drop_first();
        if quoted && c == '"' {
            if tail.len() > 0 && tail[0] == '"' {
                fields_from(tail.drop_first(), true, current.push('"'))
            } else {
                fields_from(tail, false, current)
            }
        } else if c == '"' && current.len() == 0 {
            fields_from(tail, true, current)
        } else if !quoted && c == ',' {
            seq![current] + fields_from(tail, false, seq![])
        } else {
            fields_from(tail, quoted, current.push(c))
        }
    }
}

/// The fields of a line of `RECORD`.
pub open spec fn record_fields(line: Seq<char>) -> Seq<Seq<char>> {
    fields_from(line, false, seq![])
}

/// Texts held by strings.
pub open spec fn string_views(strings: Seq<String>) -> Seq<Seq<char>> {
    strings.map_values(|s: String| s@)
}

/// Splits a line of `RECORD` into its fields.
pub fn split_record_line(line: &str) -> (fields: Vec<String>)
    ensures
        string_views(fields@) == record_fields(line@),
        fields@.len() > 0,
{
    let chars = text::to_chars(line);
    let mut fields: Vec<String> = Vec::new();
    let mut current = String::new();
    let mut in_quotes = false;
    let mut i: usize = 0;
    assert(chars@.skip(0) == line@);
    assert(string_views(fields@) + record_fields(line@) == record_fields(line@));
    while i < chars.len()
        invariant
            i <= chars@.len(),
            string_views(fields@) + fields_from(chars@.skip(i as int), in_quotes, current@)
                == record_fields(line@),
        decreases chars@.len() - i,
    {
        let c = chars[i];
        let ghost rest = chars@.skip(i as int);
        proof {
            assert(rest[0] == c);
            assert(rest.drop_first() == chars@.skip(i + 1));
            if i + 1 < chars@.len() {
                assert(rest.drop_first().drop_first() == chars@.skip(i + 2));
            }
        }
        if c == '"' && in_quotes {
            if i + 1 < chars.len() && chars[i + 1] == '"' {
                current.push('"');
                i = i + 1;
            } else {
                in_quotes = false;
            }
        } else if c == '"' && current.as_str().is_empty() {
            in_quotes = true;
        } else if c == ',' && !in_quotes {
            let ghost before = fields@;
            let ghost field = current@;
            fields.push(current);
            current = String::new();
            proof {
                let after = fields_from(rest.drop_first(), false, seq![]);
                assert(string_views(fields@) == string_views(before).push(field));
                assert(string_views(fields@) + after == string_views(before) + (seq![field]
                    + after));
            }
        } else {
            current.push(c);
        }
        i = i + 1;
    }
    let ghost before = fields@;
    let ghost field = current@;
    fields.push(current);
    proof {
        assert(string_views(fields@) == string_views(before).push(field));
        assert(string_views(fields@) == string_views(before) + seq![field]);
    }
    fields
}

/// A file listed in a wheel's `RECORD`.
#[derive(Debug, Clone, PartialEq, Eq)]
pub struct WheelRecordEntry {
    /// The path of the file in the wheel archive. It is not the path where
    /// the file is installed.
    pub archive_path: String,
    /// The SHA-256 digest of the file. There is none if `RECORD` gives no hash
    /// of the file (as is usual for `RECORD` itself), or one by another
    /// algorithm.
    pub sha256: Option<[u8; 32]>,
    /// The size of the file in bytes, if `RECORD` gives it.
    pub size: Option<u64>,
}

/// What an entry says.
#[verifier::ext_equal]
pub struct EntryView {
    /// The path of the file in the wheel archive.
    pub archive_path: Seq<char>,
    /// The SHA-256 digest of the file.
    pub sha256: Option<Seq<u8>>,
    /// The size of the file in bytes.
    pub size: Option<u64>,
}

impl View for WheelRecordEntry {
    type V = EntryView;

    open spec fn view(&self) -> EntryView {
        EntryView {
            archive_path: self.archive_path@,
            sha256: hash::digest_view(self.sha256),
            size: self.size,
        }
    }
}

impl WheelRecordEntry {
    /// The path where the file is installed.
    pub fn mapped_path(&self) -> (mapped: String)
        ensures
            mapped@ == category::installed_path(self.archive_path@),
    {
        category::map_wheel_archive_path(self.archive_path.as_str())
    }
}

/// The contents of a wheel's `RECORD`.
#[derive(Debug, Clone, PartialEq, Eq)]
pub struct WheelRecord {
    /// The files that are listed.
    pub entries: Vec<WheelRecordEntry>,
}

impl View for WheelRecord {
    type V = Seq<EntryView>;

    open spec fn view(&self) -> Seq<EntryView> {
        self.entries@.map_values(|e: WheelRecordEntry| e@)
    }
}

impl Default for WheelRecord {
    /// A record that lists nothing.
    fn default() -> (record: Self)
        ensures
            record@ == Seq::<EntryView>::empty(),
    {
        let record = WheelRecord { entries: Vec::new() };
        assert(record@ == Seq::<EntryView>::empty());
        record
    }
}

/// The file that a line lists. A line of white space lists none, nor does one
/// whose first field is empty. A hash or a size that cannot be read counts as
/// one that is not given.
pub open spec fn line_entry(line: Seq<char>) -> Option<EntryView> {
    let fields = record_fields(line);
    if text::trim(line).len() == 0 || fields[0].len() == 0 {
        None
    } else {
        Some(
            EntryView {
                archive_path: fields[0],
                sha256: if fields.len() > 1 {
                    hash::record_hash(fields[1])
                } else {
                    None
                },
                size: if fields.len() > 2 {
                    text::decimal(fields[2])
                } else {
                    None
                },
            },
        )
    }
}

/// The files that a `RECORD` lists, in its order.
pub open spec fn record_entries(content: Seq<char>) -> Seq<EntryView> {
    text::lines(content).filter_map(|line: Seq<char>| line_entry(line))
}

/// An empty field gives no hash.
pub proof fn lemma_empty_hash(field: Seq<char>)
    requires
        field.len() == 0,
    ensures
        hash::record_hash(field) is None,
{
    reveal_strlit("sha256=");
    assert forall|digest: Seq<u8>| !hash::gives_digest(field, digest) by {
        assert(hash::hash_field(digest).len() >= 7);
    }
}

/// Reads a line of `RECORD`.
fn parse_line(line: &[char]) -> (entry: Option<WheelRecordEntry>)
    ensures
        match entry {
            Some(e) => line_entry(line@) == Some(e@),
            None => line_entry(line@) is None,
        },
{
    if text::trimmed(line).is_empty() {
        return None;
    }
    let whole = text::to_text(line);
    let fields = split_record_line(whole.as_str());
    let ghost texts = record_fields(line@);
    assert(texts == string_views(fields@));
    assert(texts[0] == fields@[0]@);
    if fields[0].as_str().is_empty() {
        return None;
    }
    let sha256 = if fields.len() > 1 {
        assert(texts[1] == fields@[1]@);
        if fields[1].as_str().is_empty() {
            proof {
                lemma_empty_hash(texts[1]);
            }
            None
        } else {
            hash::parse_record_hash(fields[1].as_str())
        }
    } else {
        None
    };
    let size = if fields.len() > 2 {
        assert(texts[2] == fields@[2]@);
        if fields[2].as_str().is_empty() {
            None
        } else {
            let digits = text::to_chars(fields[2].as_str());
            text::parse_decimal(digits.as_slice())
        }
    } else {
        None
    };
    Some(WheelRecordEntry { archive_path: fields[0].clone(), sha256, size })
}

impl WheelRecord {
    /// Reads the contents of a `RECORD` file. Every text can be read: what is
    /// not understood is left out.
    pub fn parse(content: &str) -> (record: Result<Self, IoError>)
        ensures
            record matches Ok(r) && r@ == record_entries(content@),
    {
        let chars = text::to_chars(content);
        let lines = text::split_lines(chars.as_slice());
        let ghost texts = text::lines(content@);
        let ghost f = |line: Seq<char>| line_entry(line);
        let mut entries: Vec<WheelRecordEntry> = Vec::new();
        let ghost view = |e: WheelRecordEntry| e@;
        assert(entries@.map_values(view) == texts.take(0).filter_map(f));
        for i in 0..lines.len()
            invariant
                texts == text::views(lines@),
                f == |line: Seq<char>| line_entry(line),
                view == |e: WheelRecordEntry| e@,
                entries@.map_values(view) == texts.take(i as int).filter_map(f),
        {
            let ghost before = entries@;
            proof {
                assert(texts[i as int] == lines@[i as int]@);
                assert(texts.take(i + 1).drop_last() == texts.take(i as int));
                assert(texts.take(i + 1).last() == texts[i as int]);
            }
            match parse_line(lines[i]) {
                Some(entry) => {
                    let ghost e = entry@;
                    entries.push(entry);
                    assert(entries@.map_values(view) == before.map_values(view).push(e));
                },
                None => {},
            }
        }
        assert(texts.take(texts.len() as int) == texts);
        Ok(WheelRecord { entries })
    }

    /// The record that an attempt to read the `RECORD` file of an extracted
    /// wheel gives.
    pub fn from_extracted_directory(content: Result<String, IoError>) -> (record: Result<
        Self,
        IoError,
    >)
        ensures
            match content {
                Ok(c) => record matches Ok(r) && r@ == record_entries(c@),
                Err(e) => record == Err::<Self, _>(e),
            },
    {
        match content {
            Ok(c) => Self::parse(c.as_str()),
            Err(e) => Err(e),
        }
    }
}

} // verus!
