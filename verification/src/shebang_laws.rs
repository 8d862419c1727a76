//! Which scripts are looked at, and which first lines are replaced.
use crate::category_laws;
use crate::error::{IoError, IoErrorKind, WheelInstallError};
use crate::path;
use crate::path::PathComponent;
use crate::path_laws;
use crate::record;
use crate::record::{EntryView, WheelRecord};
use crate::shebang;
use crate::text;
use vstd::prelude::*;
use vstd::string::*;

verus! {

/// The bytes of `#!python`.
pub open spec fn python_line() -> Seq<u8> {
    seq![35u8, 33, 112, 121, 116, 104, 111, 110]
}

/// Whether a line, up to its line feed, stands for the interpreter: it is
/// `#!python` or `#!pythonw`, and there may be a carriage return behind it.
pub open spec fn stands_for_python(line: Seq<u8>) -> bool {
    ||| line == python_line()
    ||| line == python_line() + seq![13u8]
    ||| line == python_line() + seq![119u8]
    ||| line == python_line() + seq![119u8, 13u8]
}

/// The two lines as bytes.
proof fn lemma_placeholders()
    ensures
        vstd::utf8::encode_utf8("#!python"@) == python_line(),
        vstd::utf8::encode_utf8("#!pythonw"@) == python_line() + seq![119u8],
{
    reveal_strlit("#!python");
    reveal_strlit("#!pythonw");
    vstd::utf8::is_ascii_chars_encode_utf8("#!python"@);
    vstd::utf8::is_ascii_chars_encode_utf8("#!pythonw"@);
    let long = python_line() + seq![119u8];
    assert(vstd::utf8::encode_utf8("#!python"@) =~= python_line());
    assert(vstd::utf8::encode_utf8("#!pythonw"@) =~= long);
}

/// The first line decides by its bytes alone.
proof fn lemma_first_line(line: Seq<u8>, content: Seq<u8>)
    requires
        !line.contains(10u8),
        content == line || (content.len() > line.len() && content.take(line.len() as int) == line
            && content[line.len() as int] == 10),
    ensures
        shebang::is_placeholder(shebang::first_line(content)) <==> stands_for_python(line),
        shebang::behind_first_line(content) == content.skip(line.len() as int),
{
    lemma_placeholders();
    let n = line.len() as int;
    assert forall|j: int| 0 <= j < n implies content[j] != 10 by {
        assert(content[j] == content.take(n)[j]);
        assert(content.take(n) == line);
        assert(line.contains(line[j]));
    }
    text::lemma_position_is(content, 10u8, n);
    assert(content.take(n) == line);
    let shorter = shebang::without_return(line);
    if line.len() > 0 && line.last() == 13 {
        assert(shorter + seq![13u8] == line);
        assert(python_line() + seq![119u8, 13u8] == (python_line() + seq![119u8]) + seq![13u8]);
        assert((python_line() + seq![119u8])[8] == 119);
        assert((python_line() + seq![13u8]).drop_last() == python_line());
        assert((python_line() + seq![119u8, 13u8]).drop_last() == python_line() + seq![119u8]);
    } else {
        assert((python_line() + seq![13u8]).last() == 13);
        assert((python_line() + seq![119u8, 13u8]).last() == 13);
    }
}

/// The first line of a script is replaced if it stands for the interpreter, and
/// then everything behind it is kept; any other script is left alone.
pub proof fn law_replace_placeholder(
    content: &[u8],
    shebang: &str,
    replaced: Option<Vec<u8>>,
    line: Seq<u8>,
    rest: Seq<u8>,
)
    requires
        call_ensures(shebang::replace_placeholder, (content, shebang), replaced),
        !line.contains(10u8),
        content@ == line || content@ == line + seq![10u8] + rest,
    ensures
        !stands_for_python(line) ==> replaced is None,
        stands_for_python(line) && content@ == line ==> (replaced matches Some(new) && new@
            == vstd::utf8::encode_utf8(shebang@)),
        stands_for_python(line) && content@ == line + seq![10u8] + rest ==> (
        replaced matches Some(new) && new@ == vstd::utf8::encode_utf8(shebang@) + seq![10u8]
            + rest),
{
    let whole = line + seq![10u8] + rest;
    let n = line.len() as int;
    assert(whole.take(n) == line);
    assert(whole[n] == 10);
    lemma_first_line(line, content@);
    assert(line.skip(n) == Seq::<u8>::empty());
    assert(whole.skip(n) == seq![10u8] + rest);
    assert(vstd::utf8::encode_utf8(shebang@) + Seq::<u8>::empty() == vstd::utf8::encode_utf8(
        shebang@,
    ));
    assert(vstd::utf8::encode_utf8(shebang@) + (seq![10u8] + rest) == vstd::utf8::encode_utf8(
        shebang@,
    ) + seq![10u8] + rest);
}

/// A script that was read is rewritten by its first line, one that is not there
/// needs nothing, and any other failure to read it is passed on.
pub proof fn law_rewrite_script(
    content: Result<Vec<u8>, IoError>,
    shebang: &str,
    written: Result<Option<Vec<u8>>, WheelInstallError>,
    line: Seq<u8>,
    rest: Seq<u8>,
)
    requires
        call_ensures(shebang::rewrite_wheel_script_shebang, (content, shebang), written),
        !line.contains(10u8),
    ensures
        match content {
            Ok(c) => c@ == line + seq![10u8] + rest ==> if stands_for_python(line) {
                written matches Ok(Some(new)) && new@ == vstd::utf8::encode_utf8(shebang@)
                    + seq![10u8] + rest
            } else {
                written matches Ok(None)
            },
            Err(e) => if e.kind == IoErrorKind::NotFound {
                written matches Ok(None)
            } else {
                written matches Err(WheelInstallError::Io(cause)) && cause == e
            },
        },
        content matches Ok(c) ==> c@ == line ==> if stands_for_python(line) {
            written matches Ok(Some(new)) && new@ == vstd::utf8::encode_utf8(shebang@)
        } else {
            written matches Ok(None)
        },
{
    if let Ok(c) = content {
        let whole = line + seq![10u8] + rest;
        let n = line.len() as int;
        assert(whole.take(n) == line);
        assert(whole[n] == 10);
        if c@ == line || c@ == whole {
            lemma_first_line(line, c@);
        }
        assert(line.skip(n) == Seq::<u8>::empty());
        assert(whole.skip(n) == seq![10u8] + rest);
        assert(vstd::utf8::encode_utf8(shebang@) + (seq![10u8] + rest)
            == vstd::utf8::encode_utf8(shebang@) + seq![10u8] + rest);
        assert(vstd::utf8::encode_utf8(shebang@) + Seq::<u8>::empty()
            == vstd::utf8::encode_utf8(shebang@));
    }
}

/// A path in the directory `scripts` of a directory `<name>.data`.
pub open spec fn is_in_scripts(
    p: Seq<char>,
    name: Seq<char>,
    rest: Seq<PathComponent<Seq<char>>>,
) -> bool {
    path::path_components(p) == seq![
        PathComponent::Normal(name + ".data"@),
        PathComponent::Normal("scripts"@),
    ] + rest
}

/// What is kept of a row when it is filtered comes from the row.
pub proof fn lemma_kept<A, B>(s: Seq<A>, f: spec_fn(A) -> Option<B>)
    ensures
        forall|i: int|
            0 <= i < s.len() && f(#[trigger] s[i]) is Some ==> s.filter_map(f).contains(
                f(s[i])->Some_0,
            ),
        forall|b: B| #[trigger]
            s.filter_map(f).contains(b) ==> exists|i: int|
                0 <= i < s.len() && f(#[trigger] s[i]) == Some(b),
    decreases s.len(),
{
    if s.len() > 0 {
        let shorter = s.drop_last();
        lemma_kept(shorter, f);
        let kept = shorter.filter_map(f);
        let all = s.filter_map(f);
        assert forall|b: B| kept.contains(b) implies all.contains(b) by {
            let k = choose|k: int| 0 <= k < kept.len() && kept[k] == b;
            assert(all[k] == b);
        }
        if f(s.last()) is Some {
            assert(all == kept.push(f(s.last())->Some_0));
            assert(all[kept.len() as int] == f(s.last())->Some_0);
        } else {
            assert(all == kept);
        }
        assert forall|i: int| 0 <= i < s.len() && f(#[trigger] s[i]) is Some implies all.contains(
            f(s[i])->Some_0,
        ) by {
            if i < shorter.len() {
                assert(shorter[i] == s[i]);
            } else {
                assert(s[i] == s.last());
            }
        }
        assert forall|b: B| #[trigger] all.contains(b) implies exists|i: int|
            0 <= i < s.len() && f(#[trigger] s[i]) == Some(b) by {
            let k = choose|k: int| 0 <= k < all.len() && all[k] == b;
            if k < kept.len() {
                assert(kept[k] == b);
                assert(kept.contains(b));
                let i = choose|i: int| 0 <= i < shorter.len() && f(#[trigger] shorter[i]) == Some(b);
                assert(f(s[i]) == Some(b));
            } else {
                assert(f(s[s.len() - 1]) == Some(b));
            }
        }
    }
}

/// Where a file of the `scripts` category goes.
proof fn lemma_destination(e: EntryView, name: Seq<char>, rest: Seq<PathComponent<Seq<char>>>)
    requires
        is_in_scripts(e.archive_path, name, rest),
    ensures
        shebang::script_destination(e) == Some(
            "python-scripts"@ + seq!['/'] + path::written(rest),
        ),
{
    category_laws::law_category(e.archive_path, name, "scripts"@, rest);
}

/// Only the files of the `scripts` category go anywhere.
proof fn lemma_no_destination(e: EntryView)
    requires
        forall|name: Seq<char>, rest: Seq<PathComponent<Seq<char>>>|
            !#[trigger] is_in_scripts(e.archive_path, name, rest),
    ensures
        shebang::script_destination(e) is None,
{
    let p = e.archive_path;
    let cs = path::path_components(p);
    if cs.len() >= 2 && cs[0] is Normal && cs[1] is Normal && exists|name: Seq<char>|
        cs[0]->Normal_0 == #[trigger] (name + ".data"@) {
        let name = choose|name: Seq<char>| cs[0]->Normal_0 == #[trigger] (name + ".data"@);
        let category = cs[1]->Normal_0;
        let rest = cs.skip(2);
        let front = seq![PathComponent::Normal(name + ".data"@), PathComponent::Normal(category)];
        assert(cs == front + rest);
        category_laws::law_category(p, name, category, rest);
        if category == "scripts"@ {
            assert(is_in_scripts(p, name, rest));
        }
    } else {
        category_laws::law_no_category(p);
    }
}

/// Every listed file of the `scripts` category is looked at, whatever its name
/// and however deep it lies, in `python-scripts` under the path that it has in
/// the category.
pub proof fn law_scripts_are_looked_at(
    wheel_record: &WheelRecord,
    scripts: Vec<String>,
    i: int,
    name: Seq<char>,
    rest: Seq<PathComponent<Seq<char>>>,
)
    requires
        call_ensures(shebang::fix_up_script_shebangs, (wheel_record,), scripts),
        0 <= i < wheel_record.entries@.len(),
        is_in_scripts(wheel_record.entries@[i].archive_path@, name, rest),
    ensures
        exists|k: int|
            0 <= k < scripts@.len() && (#[trigger] scripts@[k])@ == "python-scripts"@ + seq!['/']
                + path::written(rest),
{
    let f = |e: EntryView| shebang::script_destination(e);
    let e = wheel_record@[i];
    assert(e.archive_path == wheel_record.entries@[i].archive_path@);
    lemma_destination(e, name, rest);
    lemma_kept(wheel_record@, f);
    let d = "python-scripts"@ + seq!['/'] + path::written(rest);
    assert(f(wheel_record@[i]) == Some(d));
    let views = record::string_views(scripts@);
    assert(views.contains(d));
    let k = choose|k: int| 0 <= k < views.len() && views[k] == d;
    assert(scripts@[k]@ == d);
}

/// Nothing else is looked at: every path to look at is that of a listed file of
/// the `scripts` category.
pub proof fn law_only_scripts_are_looked_at(
    wheel_record: &WheelRecord,
    scripts: Vec<String>,
    k: int,
)
    requires
        call_ensures(shebang::fix_up_script_shebangs, (wheel_record,), scripts),
        0 <= k < scripts@.len(),
    ensures
        exists|i: int, name: Seq<char>, rest: Seq<PathComponent<Seq<char>>>|
            0 <= i < wheel_record.entries@.len() && #[trigger] is_in_scripts(
                wheel_record.entries@[i].archive_path@,
                name,
                rest,
            ) && scripts@[k]@ == "python-scripts"@ + seq!['/'] + path::written(rest),
{
    let f = |e: EntryView| shebang::script_destination(e);
    lemma_kept(wheel_record@, f);
    let views = record::string_views(scripts@);
    let d = scripts@[k]@;
    assert(views[k] == d);
    assert(wheel_record@.filter_map(f).contains(d));
    let i = choose|i: int| 0 <= i < wheel_record@.len() && f(#[trigger] wheel_record@[i]) == Some(d);
    let e = wheel_record@[i];
    assert(f(e) == Some(d));
    assert(e.archive_path == wheel_record.entries@[i].archive_path@);
    if forall|name: Seq<char>, rest: Seq<PathComponent<Seq<char>>>|
        !#[trigger] is_in_scripts(e.archive_path, name, rest) {
        lemma_no_destination(e);
    }
    let (name, rest) = choose|name: Seq<char>, rest: Seq<PathComponent<Seq<char>>>| #[trigger]
        is_in_scripts(e.archive_path, name, rest);
    lemma_destination(e, name, rest);
    assert(is_in_scripts(wheel_record.entries@[i].archive_path@, name, rest));
}

/// The scripts of a record are those of its first entries and, behind them,
/// those of its last ones.
pub proof fn law_scripts_one_by_one(
    first: &WheelRecord,
    last: &WheelRecord,
    whole: &WheelRecord,
    first_scripts: Vec<String>,
    last_scripts: Vec<String>,
    scripts: Vec<String>,
)
    requires
        call_ensures(shebang::fix_up_script_shebangs, (first,), first_scripts),
        call_ensures(shebang::fix_up_script_shebangs, (last,), last_scripts),
        call_ensures(shebang::fix_up_script_shebangs, (whole,), scripts),
        whole.entries@ == first.entries@ + last.entries@,
    ensures
        scripts@.len() == first_scripts@.len() + last_scripts@.len(),
        forall|k: int|
            0 <= k < first_scripts@.len() ==> (#[trigger] scripts@[k])@ == first_scripts@[k]@,
        forall|k: int|
            0 <= k < last_scripts@.len() ==> (#[trigger] last_scripts@[k])@ == scripts@[k
                + first_scripts@.len()]@,
{
    let f = |e: EntryView| shebang::script_destination(e);
    assert(whole@ == first@ + last@);
    text::lemma_filter_map_concat(first@, last@, f);
    let a = record::string_views(first_scripts@);
    let b = record::string_views(last_scripts@);
    let c = record::string_views(scripts@);
    assert(c == a + b);
    assert forall|k: int| 0 <= k < first_scripts@.len() implies (#[trigger] scripts@[k])@
        == first_scripts@[k]@ by {
        assert(c[k] == a[k]);
    }
    assert forall|k: int| 0 <= k < last_scripts@.len() implies (#[trigger] last_scripts@[k])@
        == scripts@[k + first_scripts@.len()]@ by {
        assert(c[k + a.len()] == b[k]);
    }
}

/// A record of one script has that one to look at, and a record of one other
/// file has none.
pub proof fn law_one_script(
    wheel_record: &WheelRecord,
    scripts: Vec<String>,
    name: Seq<char>,
    rest: Seq<PathComponent<Seq<char>>>,
)
    requires
        call_ensures(shebang::fix_up_script_shebangs, (wheel_record,), scripts),
        wheel_record.entries@.len() == 1,
    ensures
        is_in_scripts(wheel_record.entries@[0].archive_path@, name, rest) ==> scripts@.len() == 1
            && scripts@[0]@ == "python-scripts"@ + seq!['/'] + path::written(rest),
        (forall|n: Seq<char>, r: Seq<PathComponent<Seq<char>>>|
            !#[trigger] is_in_scripts(wheel_record.entries@[0].archive_path@, n, r))
            ==> scripts@.len() == 0,
{
    let f = |e: EntryView| shebang::script_destination(e);
    let e = wheel_record@[0];
    let p = wheel_record.entries@[0].archive_path@;
    assert(e.archive_path == p);
    assert(wheel_record@.drop_last() == Seq::<EntryView>::empty());
    let none = Seq::<EntryView>::empty().filter_map(f);
    assert(none.len() == 0);
    let views = record::string_views(scripts@);
    assert(wheel_record@.last() == e);
    if is_in_scripts(p, name, rest) {
        lemma_destination(e, name, rest);
        assert(views == none.push(f(e)->Some_0));
        assert(views[0] == scripts@[0]@);
    }
    if forall|n: Seq<char>, r: Seq<PathComponent<Seq<char>>>| !#[trigger] is_in_scripts(p, n, r) {
        lemma_no_destination(e);
        assert(views == none);
    }
}

/// A script `<name>.data/scripts/<path>`, with a path of any names, is looked
/// at in `python-scripts/<path>`.
pub proof fn law_named_script(
    wheel_record: &WheelRecord,
    scripts: Vec<String>,
    i: int,
    name: Seq<char>,
    names: Seq<Seq<char>>,
)
    requires
        call_ensures(shebang::fix_up_script_shebangs, (wheel_record,), scripts),
        !name.contains('/'),
        path_laws::are_names(names),
        names.len() > 0,
        0 <= i < wheel_record.entries@.len(),
        wheel_record.entries@[i].archive_path@ == name + ".data/scripts/"@ + path_laws::slashed(
            names,
        ),
    ensures
        exists|k: int|
            0 <= k < scripts@.len() && (#[trigger] scripts@[k])@ == "python-scripts/"@
                + path_laws::slashed(names),
{
    let f = |e: EntryView| shebang::script_destination(e);
    reveal_strlit(".data/scripts/");
    reveal_strlit(".data");
    reveal_strlit("scripts");
    reveal_strlit("python-scripts/");
    reveal_strlit("python-scripts");
    let p = wheel_record.entries@[i].archive_path@;
    assert(".data/scripts/"@ =~= ".data"@ + seq!['/'] + "scripts"@ + seq!['/']);
    assert("python-scripts/"@ =~= "python-scripts"@ + seq!['/']);
    assert(p =~= name + ".data"@ + seq!['/'] + "scripts"@ + seq!['/'] + path_laws::slashed(names));
    assert(path_laws::is_name("scripts"@));
    category_laws::law_data_file(name, "scripts"@, names);
    lemma_kept(wheel_record@, f);
    let d = "python-scripts/"@ + path_laws::slashed(names);
    assert(wheel_record@[i].archive_path == p);
    assert(f(wheel_record@[i]) == Some(d));
    let views = record::string_views(scripts@);
    assert(views.contains(d));
    let k = choose|k: int| 0 <= k < views.len() && views[k] == d;
    assert(scripts@[k]@ == d);
}

} // verus!
