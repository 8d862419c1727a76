//! Where files are installed, by the components and the text of their paths.
use crate::category;
use crate::category::WheelDataCategory;
use crate::path;
use crate::path::PathComponent;
use crate::path_laws;
use crate::record::WheelRecordEntry;
use vstd::prelude::*;
use vstd::string::*;

verus! {

/// A text and an ending end with that ending.
pub proof fn lemma_suffix(s: Seq<char>, suffix: Seq<char>)
    ensures
        suffix.is_suffix_of(s + suffix),
{
    assert((s + suffix).subrange(s.len() as int, (s + suffix).len() as int) == suffix);
}

/// A text that ends with an ending is a text and that ending.
pub proof fn lemma_has_suffix(s: Seq<char>, suffix: Seq<char>)
    requires
        suffix.is_suffix_of(s),
    ensures
        s == s.take(s.len() - suffix.len()) + suffix,
{
}

/// What a path inside the directory of a category is made of is relative.
proof fn lemma_rest(p: Seq<char>)
    requires
        path::path_components(p).len() >= 2,
        path::path_components(p)[0] is Normal,
    ensures
        !path::is_absolute(p),
        !path::is_absolute(path::written(path::path_components(p).skip(2))),
{
    let cs = path::path_components(p);
    if path::is_absolute(p) {
        assert(cs[0] is RootDir);
    }
    path::lemma_relative_components(p);
    let named = path::without_cur_dir(cs);
    assert forall|k: int| 0 <= k < cs.skip(2).len() implies path::is_named(
        #[trigger] cs.skip(2)[k],
    ) by {
        assert(cs.skip(2)[k] == named[k + 2]);
    }
    path::lemma_written_components(cs.skip(2));
}

/// Every path in the directory `<category>` of a directory `<name>.data`
/// belongs to the category of that name, however long it is, and is installed
/// where that category goes.
pub proof fn law_category(
    p: Seq<char>,
    name: Seq<char>,
    category: Seq<char>,
    rest: Seq<PathComponent<Seq<char>>>,
)
    requires
        path::path_components(p) == seq![
            PathComponent::Normal(name + ".data"@),
            PathComponent::Normal(category),
        ] + rest,
    ensures
        category == "purelib"@ ==> category::archive_category(p) == Some(
            (WheelDataCategory::Purelib, path::written(rest)),
        ) && category::installed_path(p) == "site-packages"@ + seq!['/'] + path::written(rest),
        category == "platlib"@ ==> category::archive_category(p) == Some(
            (WheelDataCategory::Platlib, path::written(rest)),
        ) && category::installed_path(p) == "site-packages"@ + seq!['/'] + path::written(rest),
        category == "scripts"@ ==> category::archive_category(p) == Some(
            (WheelDataCategory::Scripts, path::written(rest)),
        ) && category::installed_path(p) == "python-scripts"@ + seq!['/'] + path::written(rest),
        category == "headers"@ ==> category::archive_category(p) == Some(
            (WheelDataCategory::Headers, path::written(rest)),
        ) && category::installed_path(p) == path::written(rest),
        category != "purelib"@ && category != "platlib"@ && category != "scripts"@ && category
            != "headers"@ ==> category::archive_category(p) == Some(
            (WheelDataCategory::Data, path::written(rest)),
        ) && category::installed_path(p) == path::written(rest),
        category::in_scripts_category(p) <==> category == "scripts"@,
        category::is_script(p) <==> category == "scripts"@ || (category != "purelib"@ && category
            != "platlib"@ && rest.len() > 0 && rest[0] == PathComponent::Normal(
            "python-scripts"@,
        )),
{
    let cs = path::path_components(p);
    category::law_installed_components(p);
    lemma_suffix(name, ".data"@);
    assert(cs[0] == PathComponent::Normal(name + ".data"@));
    assert(cs[1] == PathComponent::Normal(category));
    assert(cs.skip(2) == rest);
    lemma_rest(p);
    reveal_strlit("purelib");
    reveal_strlit("platlib");
    reveal_strlit("scripts");
    reveal_strlit("headers");
    reveal_strlit("site-packages");
    reveal_strlit("python-scripts");
    assert("purelib"@[1] == 'u');
    assert("platlib"@[1] == 'l');
    assert("scripts"@[1] == 'c');
    assert("headers"@[1] == 'e');
    assert("site-packages"@.len() != "python-scripts"@.len());
}

/// Any other path has no category, and is installed in `site-packages` as it
/// is, unless it starts at the root.
pub proof fn law_no_category(p: Seq<char>)
    requires
        ({
            let cs = path::path_components(p);
            ||| cs.len() < 2
            ||| !(cs[0] is Normal)
            ||| !(cs[1] is Normal)
            ||| cs[0] matches PathComponent::Normal(first) && forall|name: Seq<char>|
                first != #[trigger] (name + ".data"@)
        }),
    ensures
        category::archive_category(p) is None,
        !category::in_scripts_category(p),
        !category::is_script(p),
        p.len() > 0 && p[0] == '/' ==> category::installed_path(p) == p,
        p.len() == 0 || p[0] != '/' ==> category::installed_path(p) == "site-packages"@ + seq!['/']
            + p,
{
    let cs = path::path_components(p);
    if cs.len() >= 2 && cs[0] is Normal {
        let first = cs[0]->Normal_0;
        if ".data"@.is_suffix_of(first) {
            lemma_has_suffix(first, ".data"@);
            assert(first == first.take(first.len() - ".data"@.len()) + ".data"@);
        }
    }
    category::law_installed_components(p);
    reveal_strlit("site-packages");
    reveal_strlit("python-scripts");
    assert("site-packages"@.len() != "python-scripts"@.len());
}

/// Rows of names written one behind the other.
pub proof fn lemma_slashed(a: Seq<Seq<char>>, b: Seq<Seq<char>>)
    requires
        a.len() > 0,
        b.len() > 0,
    ensures
        path_laws::slashed(a + b) == path_laws::slashed(a) + seq!['/'] + path_laws::slashed(b),
    decreases b.len(),
{
    let whole = a + b;
    assert(whole[whole.len() - 1] == b[b.len() - 1]);
    if b.len() == 1 {
        assert(whole.drop_last() == a);
    } else {
        assert(whole.drop_last() == a + b.drop_last());
        lemma_slashed(a, b.drop_last());
        assert(path_laws::slashed(whole) == path_laws::slashed(a) + seq!['/'] + (
        path_laws::slashed(b.drop_last()) + seq!['/'] + b[b.len() - 1]));
    }
}

/// A file `<name>.data/<category>/<path>`, with a path of any names, is
/// installed under that path: relative to the root of the environment, or in
/// `site-packages` or `python-scripts` as its category asks.
pub proof fn law_data_file(name: Seq<char>, category: Seq<char>, names: Seq<Seq<char>>)
    requires
        !name.contains('/'),
        path_laws::is_name(category),
        path_laws::are_names(names),
        names.len() > 0,
    ensures
        category::installed_path(
            name + ".data"@ + seq!['/'] + category + seq!['/'] + path_laws::slashed(names),
        ) == if category == "scripts"@ {
            "python-scripts"@ + seq!['/'] + path_laws::slashed(names)
        } else if category == "purelib"@ || category == "platlib"@ {
            "site-packages"@ + seq!['/'] + path_laws::slashed(names)
        } else {
            path_laws::slashed(names)
        },
        category::is_script(
            name + ".data"@ + seq!['/'] + category + seq!['/'] + path_laws::slashed(names),
        ) <==> category == "scripts"@ || (category != "purelib"@ && category != "platlib"@
            && names[0] == "python-scripts"@),
        category::in_scripts_category(
            name + ".data"@ + seq!['/'] + category + seq!['/'] + path_laws::slashed(names),
        ) <==> category == "scripts"@,
{
    let dir = name + ".data"@;
    let p = name + ".data"@ + seq!['/'] + category + seq!['/'] + path_laws::slashed(names);
    reveal_strlit(".data");
    assert(!dir.contains('/')) by {
        if dir.contains('/') {
            let i = choose|i: int| 0 <= i < dir.len() && dir[i] == '/';
            if i < name.len() {
                assert(name[i] == '/');
            }
        }
    }
    assert(path_laws::is_name(dir));
    let front = seq![dir, category];
    let whole = front + names;
    assert(front.drop_last() == seq![dir]);
    assert(path_laws::slashed(front) == dir + seq!['/'] + category) by {
        reveal_with_fuel(path_laws::slashed, 2);
    }
    lemma_slashed(front, names);
    assert(p == path_laws::slashed(whole));
    assert forall|i: int| 0 <= i < whole.len() implies path_laws::is_name(#[trigger] whole[i]) by {
        if i >= 2 {
            assert(whole[i] == names[i - 2]);
        }
    }
    path_laws::law_path_of_names(whole);
    path_laws::law_path_of_names(names);
    assert(path_laws::normal(whole) == seq![
        PathComponent::Normal(dir),
        PathComponent::Normal(category),
    ] + path_laws::normal(names));
    law_category(p, name, category, path_laws::normal(names));
    category::law_installed_components(p);
    reveal_strlit("purelib");
    reveal_strlit("platlib");
    reveal_strlit("scripts");
    reveal_strlit("headers");
    assert("purelib"@[1] == 'u');
    assert("platlib"@[1] == 'l');
    assert("scripts"@[1] == 'c');
    assert("headers"@[1] == 'e');
    reveal_strlit("site-packages");
    reveal_strlit("python-scripts");
    assert("site-packages"@.len() != "python-scripts"@.len());
    let cs = path::path_components(p);
    assert(cs.skip(2) == path_laws::normal(names));
    assert(path_laws::normal(names)[0] == PathComponent::Normal(names[0]));
}

/// The category that a directory of a name stands for.
pub open spec fn stands_for(name: Seq<char>, category: WheelDataCategory) -> bool {
    match category {
        WheelDataCategory::Purelib => name == "purelib"@,
        WheelDataCategory::Platlib => name == "platlib"@,
        WheelDataCategory::Scripts => name == "scripts"@,
        WheelDataCategory::Headers => name == "headers"@,
        WheelDataCategory::Data => name != "purelib"@ && name != "platlib"@ && name != "scripts"@
            && name != "headers"@,
    }
}

/// Exactly the paths in a directory of a directory `<name>.data` have a
/// category: the one that the inner directory stands for. The rest of the path
/// is kept, of whatever components it is.
pub proof fn law_wheel_archive_category(
    p: &str,
    found: Option<(WheelDataCategory, String)>,
    name: Seq<char>,
    category: Seq<char>,
    rest: Seq<PathComponent<Seq<char>>>,
)
    requires
        call_ensures(category::wheel_archive_category, (p,), found),
    ensures
        path::path_components(p@) == seq![
            PathComponent::Normal(name + ".data"@),
            PathComponent::Normal(category),
        ] + rest ==> (found matches Some(f) && stands_for(category, f.0) && f.1@ == path::written(
            rest,
        )),
        ({
            let cs = path::path_components(p@);
            ||| cs.len() < 2
            ||| !(cs[0] is Normal)
            ||| !(cs[1] is Normal)
            ||| cs[0] matches PathComponent::Normal(first) && forall|n: Seq<char>|
                first != #[trigger] (n + ".data"@)
        }) ==> found is None,
{
    let front = seq![PathComponent::Normal(name + ".data"@), PathComponent::Normal(category)];
    let cs = path::path_components(p@);
    if cs == front + rest {
        law_category(p@, name, category, rest);
        reveal_strlit("purelib");
        reveal_strlit("platlib");
        reveal_strlit("scripts");
        reveal_strlit("headers");
        assert("purelib"@[1] == 'u');
        assert("platlib"@[1] == 'l');
        assert("scripts"@[1] == 'c');
        assert("headers"@[1] == 'e');
    }
    if cs.len() < 2 || !(cs[0] is Normal) || !(cs[1] is Normal) || (
    cs[0] matches PathComponent::Normal(first) && forall|n: Seq<char>|
        first != #[trigger] (n + ".data"@)) {
        law_no_category(p@);
    }
}

/// A file with a category is installed where the category goes, under the path
/// that it has in the category.
pub proof fn law_mapped_path(
    p: &str,
    found: Option<(WheelDataCategory, String)>,
    mapped: String,
    is_script: bool,
)
    requires
        call_ensures(category::wheel_archive_category, (p,), found),
        call_ensures(category::map_wheel_archive_path, (p,), mapped),
        call_ensures(category::is_wheel_script_path, (p,), is_script),
    ensures
        match found {
            Some((WheelDataCategory::Purelib, rest)) | Some(
                (WheelDataCategory::Platlib, rest),
            ) => mapped@ == "site-packages"@ + seq!['/'] + rest@ && !is_script,
            Some((WheelDataCategory::Scripts, rest)) => mapped@ == "python-scripts"@ + seq!['/']
                + rest@ && is_script,
            Some((WheelDataCategory::Headers, rest)) | Some(
                (WheelDataCategory::Data, rest),
            ) => mapped@ == rest@,
            None => !is_script && mapped@ == if p@.len() > 0 && p@[0] == '/' {
                p@
            } else {
                "site-packages"@ + seq!['/'] + p@
            },
        },
        is_script <==> path::path_components(mapped@).len() > 0 && path::path_components(mapped@)[0]
            == PathComponent::Normal("python-scripts"@),
{
    let cs = path::path_components(p@);
    if cs.len() >= 2 && cs[0] is Normal && cs[1] is Normal && exists|n: Seq<char>|
        cs[0]->Normal_0 == #[trigger] (n + ".data"@) {
        let name = choose|n: Seq<char>| cs[0]->Normal_0 == #[trigger] (n + ".data"@);
        let category = cs[1]->Normal_0;
        let rest = cs.skip(2);
        let front = seq![PathComponent::Normal(name + ".data"@), PathComponent::Normal(category)];
        assert(cs == front + rest);
        law_category(p@, name, category, rest);
        law_wheel_archive_category(p, found, name, category, rest);
    } else {
        law_no_category(p@);
        law_wheel_archive_category(p, found, Seq::empty(), Seq::empty(), cs);
    }
}

/// A listed file is installed where its path in the archive says.
pub proof fn law_entry_path(entry: &WheelRecordEntry, mapped: String, p: &str, mapped_p: String)
    requires
        call_ensures(WheelRecordEntry::mapped_path, (entry,), mapped),
        call_ensures(category::map_wheel_archive_path, (p,), mapped_p),
        p@ == entry.archive_path@,
    ensures
        mapped@ == mapped_p@,
{
}

} // verus!
