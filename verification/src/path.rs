//! Paths inside an archive: names separated by `/`, read component by
//! component as `std::path` reads them on Unix.
use crate::text;
use vstd::prelude::*;
use vstd::string::*;

verus! {

/// A part of a path.
pub enum PathComponent<S> {
    /// The `/` that an absolute path begins with.
    RootDir,
    /// The `.` that a relative path begins with.
    CurDir,
    /// A `..`.
    ParentDir,
    /// A name.
    Normal(S),
}

/// What stands between two separators: nothing and `.` do not count.
pub open spec fn segment_component(segment: Seq<char>) -> Option<PathComponent<Seq<char>>> {
    if segment == Seq::<char>::empty() || segment == seq!['.'] {
        None
    } else if segment == seq!['.', '.'] {
        Some(PathComponent::ParentDir)
    } else {
        Some(PathComponent::Normal(segment))
    }
}

/// The components of a row of segments.
pub open spec fn named_components(segments: Seq<Seq<char>>) -> Seq<PathComponent<Seq<char>>> {
    segments.filter_map(|segment: Seq<char>| segment_component(segment))
}

/// A path that starts at the root.
pub open spec fn is_absolute(path: Seq<char>) -> bool {
    path.len() > 0 && path[0] == '/'
}

/// The components of a path. Repeated and trailing separators do not count,
/// nor does `.` anywhere but at the beginning.
pub open spec fn path_components(path: Seq<char>) -> Seq<PathComponent<Seq<char>>> {
    let segments = text::split_on(path, '/');
    let named = named_components(segments);
    if is_absolute(path) {
        seq![PathComponent::RootDir] + named
    } else if segments[0] == seq!['.'] {
        seq![PathComponent::CurDir] + named
    } else {
        named
    }
}

/// A component with its name read as a text.
pub open spec fn component_view(c: PathComponent<&[char]>) -> PathComponent<Seq<char>> {
    match c {
        PathComponent::RootDir => PathComponent::RootDir,
        PathComponent::CurDir => PathComponent::CurDir,
        PathComponent::ParentDir => PathComponent::ParentDir,
        PathComponent::Normal(name) => PathComponent::Normal(name@),
    }
}

/// Components with their names read as texts.
pub open spec fn component_views(cs: Seq<PathComponent<&[char]>>) -> Seq<
    PathComponent<Seq<char>>,
> {
    cs.map_values(|c: PathComponent<&[char]>| component_view(c))
}

/// Reads a path component by component.
pub fn components<'a>(path: &'a [char]) -> (cs: Vec<PathComponent<&'a [char]>>)
    ensures
        component_views(cs@) == path_components(path@),
{
    let segments = text::split_pieces(path, '/');
    let ghost texts = text::split_on(path@, '/');
    let ghost f = |segment: Seq<char>| segment_component(segment);
    proof {
        lemma_split_first(path@, '/');
        reveal_strlit(".");
        reveal_strlit("..");
        assert("."@ == seq!['.']);
        assert(".."@ == seq!['.', '.']);
        assert(text::views(segments@)[0] == segments@[0]@);
    }
    let mut cs: Vec<PathComponent<&'a [char]>> = Vec::new();
    if path.len() > 0 && path[0] == '/' {
        cs.push(PathComponent::RootDir);
    } else if text::is_text(segments[0], ".") {
        cs.push(PathComponent::CurDir);
    }
    let ghost first = component_views(cs@);
    proof {
        assert(first + texts.take(0).filter_map(f) == first);
    }
    for i in 0..segments.len()
        invariant
            texts == text::views(segments@),
            f == |segment: Seq<char>| segment_component(segment),
            "."@ == seq!['.'],
            ".."@ == seq!['.', '.'],
            component_views(cs@) == first + texts.take(i as int).filter_map(f),
    {
        let segment = segments[i];
        let ghost before = cs@;
        proof {
            assert(texts[i as int] == segment@);
            assert(texts.take(i + 1).drop_last() == texts.take(i as int));
            assert(texts.take(i + 1).last() == segment@);
            if segment@.len() == 0 {
                assert(segment@ == Seq::<char>::empty());
            }
        }
        if segment.len() == 0 || text::is_text(segment, ".") {
        } else if text::is_text(segment, "..") {
            cs.push(PathComponent::ParentDir);
            assert(component_views(cs@) == component_views(before).push(
                PathComponent::ParentDir,
            ));
        } else {
            cs.push(PathComponent::Normal(segment));
            assert(component_views(cs@) == component_views(before).push(
                PathComponent::Normal(segment@),
            ));
        }
    }
    proof {
        assert(texts.take(texts.len() as int) == texts);
        if !is_absolute(path@) && texts[0] != seq!['.'] {
            assert(first + texts.filter_map(f) == texts.filter_map(f));
        }
    }
    cs
}

/// A text has at least one piece, and the first one is what precedes the
/// first separator.
pub proof fn lemma_split_first(s: Seq<char>, sep: char)
    ensures
        text::split_on(s, sep).len() > 0,
        text::split_on(s, sep)[0] == s.take(text::position(s, sep)),
    decreases s.len(),
{
    text::lemma_position(s, sep);
    if text::position(s, sep) == s.len() {
        assert(s.take(s.len() as int) == s);
    }
}

/// A component as it is written.
pub open spec fn component_text(c: PathComponent<Seq<char>>) -> Seq<char> {
    match c {
        PathComponent::RootDir => seq!['/'],
        PathComponent::CurDir => seq!['.'],
        PathComponent::ParentDir => seq!['.', '.'],
        PathComponent::Normal(name) => name,
    }
}

/// Components written one after the other, with a separator between them.
pub open spec fn written(cs: Seq<PathComponent<Seq<char>>>) -> Seq<char>
    decreases cs.len(),
{
    if cs.len() == 0 {
        seq![]
    } else if cs.len() == 1 {
        component_text(cs[0])
    } else {
        written(cs.drop_last()) + seq!['/'] + component_text(cs.last())
    }
}

/// Writes components one after the other, from the given one on.
pub fn write_components(cs: &Vec<PathComponent<&[char]>>, from: usize) -> (s: String)
    requires
        from <= cs@.len(),
    ensures
        s@ == written(component_views(cs@).skip(from as int)),
{
    let ghost all = component_views(cs@).skip(from as int);
    let mut s = String::new();
    for i in from..cs.len()
        invariant
            from <= i <= cs@.len(),
            all == component_views(cs@).skip(from as int),
            s@ == written(all.take(i - from)),
    {
        proof {
            reveal_strlit("/");
            reveal_strlit(".");
            reveal_strlit("..");
            assert("/"@ == seq!['/']);
            assert("."@ == seq!['.']);
            assert(".."@ == seq!['.', '.']);
            assert(all[i - from] == component_view(cs@[i as int]));
            assert(all.take(i + 1 - from).drop_last() == all.take(i - from));
            assert(all.take(i + 1 - from).last() == all[i - from]);
        }
        let ghost before = s@;
        if i > from {
            s.append("/");
        }
        match &cs[i] {
            PathComponent::RootDir => {
                s.append("/");
            },
            PathComponent::CurDir => {
                s.append(".");
            },
            PathComponent::ParentDir => {
                s.append("..");
            },
            PathComponent::Normal(name) => {
                let text = text::to_text(name);
                s.append(text.as_str());
            },
        }
        proof {
            if i == from {
                assert(all.take(1)[0] == all[0]);
                assert(s@ == component_text(all[0]));
            }
        }
    }
    assert(all.take(all.len() as int) == all);
    s
}

/// A component that a segment between two separators writes: `..` or a name.
pub open spec fn is_named(c: PathComponent<Seq<char>>) -> bool {
    match c {
        PathComponent::RootDir | PathComponent::CurDir => false,
        PathComponent::ParentDir => true,
        PathComponent::Normal(name) => segment_component(name) == Some(c) && !name.contains('/'),
    }
}

/// The segments of a path write `..` and names, none of which holds a
/// separator.
pub proof fn lemma_named_components(segments: Seq<Seq<char>>)
    requires
        forall|k: int| 0 <= k < segments.len() ==> !(#[trigger] segments[k]).contains('/'),
    ensures
        forall|k: int|
            0 <= k < named_components(segments).len() ==> is_named(
                #[trigger] named_components(segments)[k],
            ),
    decreases segments.len(),
{
    if segments.len() > 0 {
        let shorter = segments.drop_last();
        assert forall|k: int| 0 <= k < shorter.len() implies !(#[trigger] shorter[k]).contains(
            '/',
        ) by {
            assert(shorter[k] == segments[k]);
        }
        lemma_named_components(shorter);
        let last = segments.last();
        assert(!segments[segments.len() - 1].contains('/'));
        assert forall|k: int| 0 <= k < named_components(segments).len() implies is_named(
            #[trigger] named_components(segments)[k],
        ) by {
            if k < named_components(shorter).len() {
                assert(named_components(segments)[k] == named_components(shorter)[k]);
            }
        }
    }
}

/// What a row of names and `..` writes is read back as that row.
pub proof fn lemma_written_components(cs: Seq<PathComponent<Seq<char>>>)
    requires
        forall|k: int| 0 <= k < cs.len() ==> is_named(#[trigger] cs[k]),
    ensures
        named_components(text::split_on(written(cs), '/')) == cs,
        !is_absolute(written(cs)),
        path_components(written(cs)) == cs,
    decreases cs.len(),
{
    let f = |segment: Seq<char>| segment_component(segment);
    let s = written(cs);
    if cs.len() == 0 {
        text::lemma_split_single(s, '/');
        Seq::lemma_filter_map_singleton(s, f);
        assert(cs == Seq::<PathComponent<Seq<char>>>::empty());
    } else {
        let last = component_text(cs.last());
        assert(is_named(cs[cs.len() - 1]));
        assert(segment_component(last) == Some(cs.last()));
        assert(last.len() > 0) by {
            if last.len() == 0 {
                assert(last == Seq::<char>::empty());
            }
        }
        assert(!last.contains('/'));
        text::lemma_split_single(last, '/');
        Seq::lemma_filter_map_singleton(last, f);
        if cs.len() == 1 {
            assert(s == last);
            assert(cs == seq![cs.last()]);
            assert(!last.contains(last[0]) || last[0] != '/');
        } else {
            let shorter = cs.drop_last();
            assert forall|k: int| 0 <= k < shorter.len() implies is_named(#[trigger] shorter[k]) by {
                assert(is_named(cs[k]));
            }
            lemma_written_components(shorter);
            text::lemma_split_concat(written(shorter), last, '/');
            text::lemma_filter_map_concat(
                text::split_on(written(shorter), '/'),
                text::split_on(last, '/'),
                f,
            );
            assert(cs == shorter + seq![cs.last()]);
            lemma_written_nonempty(shorter);
            assert(s[0] == written(shorter)[0]);
        }
        lemma_first_segment(cs);
    }
}

/// A row of names and `..` writes something, if it is not empty.
proof fn lemma_written_nonempty(cs: Seq<PathComponent<Seq<char>>>)
    requires
        cs.len() > 0,
        forall|k: int| 0 <= k < cs.len() ==> is_named(#[trigger] cs[k]),
    ensures
        written(cs).len() > 0,
{
    assert(is_named(cs[0]));
    if cs.len() == 1 {
        let name = component_text(cs[0]);
        if name.len() == 0 {
            assert(name == Seq::<char>::empty());
        }
    }
}

/// The first segment of what a row of names and `..` writes is the first of
/// them.
proof fn lemma_first_segment(cs: Seq<PathComponent<Seq<char>>>)
    requires
        cs.len() > 0,
        forall|k: int| 0 <= k < cs.len() ==> is_named(#[trigger] cs[k]),
    ensures
        text::split_on(written(cs), '/').len() > 0,
        text::split_on(written(cs), '/')[0] == component_text(cs[0]),
        text::split_on(written(cs), '/')[0] != seq!['.'],
    decreases cs.len(),
{
    assert(is_named(cs[0]));
    if cs.len() == 1 {
        assert(!component_text(cs[0]).contains('/'));
        text::lemma_split_single(component_text(cs[0]), '/');
    } else {
        let shorter = cs.drop_last();
        assert forall|k: int| 0 <= k < shorter.len() implies is_named(#[trigger] shorter[k]) by {
            assert(is_named(cs[k]));
        }
        lemma_first_segment(shorter);
        text::lemma_split_concat(written(shorter), component_text(cs.last()), '/');
    }
    if component_text(cs[0]) == seq!['.'] {
        assert(seq!['.', '.'].len() != seq!['.'].len());
    }
}

/// The components of a path but for a `.` at its beginning.
pub open spec fn without_cur_dir(cs: Seq<PathComponent<Seq<char>>>) -> Seq<
    PathComponent<Seq<char>>,
> {
    if cs.len() > 0 && cs[0] is CurDir {
        cs.drop_first()
    } else {
        cs
    }
}

/// The components of a relative path, but for a `.` at its beginning, are what
/// its segments write.
pub proof fn lemma_relative_components(path: Seq<char>)
    requires
        !is_absolute(path),
    ensures
        without_cur_dir(path_components(path)) == named_components(text::split_on(path, '/')),
        forall|k: int|
            0 <= k < named_components(text::split_on(path, '/')).len() ==> is_named(
                #[trigger] named_components(text::split_on(path, '/'))[k],
            ),
{
    let named = named_components(text::split_on(path, '/'));
    text::lemma_split_pieces(path, '/');
    lemma_named_components(text::split_on(path, '/'));
    if text::split_on(path, '/')[0] == seq!['.'] {
        assert((seq![PathComponent::CurDir] + named).drop_first() == named);
    } else if named.len() > 0 {
        assert(is_named(named[0]));
    }
}

/// A relative path seen from a directory has the components of the directory
/// and then its own.
pub proof fn lemma_joined_components(base: Seq<char>, path: Seq<char>)
    requires
        segment_component(base) == Some(PathComponent::Normal(base)),
        !base.contains('/'),
        !is_absolute(path),
    ensures
        path_components(joined(base, path)) == seq![PathComponent::Normal(base)]
            + without_cur_dir(path_components(path)),
{
    let f = |segment: Seq<char>| segment_component(segment);
    assert(base.len() > 0) by {
        if base.len() == 0 {
            assert(base == Seq::<char>::empty());
        }
    }
    assert(base.contains(base.last()));
    assert(base.contains(base[0]));
    let whole = joined(base, path);
    assert(whole == base + seq!['/'] + path);
    text::lemma_split_single(base, '/');
    text::lemma_split_concat(base, path, '/');
    text::lemma_filter_map_concat(seq![base], text::split_on(path, '/'), f);
    Seq::lemma_filter_map_singleton(base, f);
    lemma_relative_components(path);
    assert(whole[0] == base[0]);
    assert(text::split_on(whole, '/')[0] == base);
}

/// A path seen from a base directory. An absolute path stays what it is.
pub open spec fn joined(base: Seq<char>, path: Seq<char>) -> Seq<char> {
    if is_absolute(path) {
        path
    } else if base.len() > 0 && base.last() != '/' {
        base + seq!['/'] + path
    } else {
        base + path
    }
}

/// Appends a path to a base directory.
pub fn join(base: &str, path: &str) -> (s: String)
    ensures
        s@ == joined(base@, path@),
{
    let path_chars = text::to_chars(path);
    if path_chars.len() > 0 && path_chars[0] == '/' {
        return path.to_owned();
    }
    let base_chars = text::to_chars(base);
    let mut s = base.to_owned();
    if base_chars.len() > 0 && base_chars[base_chars.len() - 1] != '/' {
        s.push('/');
    }
    s.append(path);
    s
}

} // verus!
