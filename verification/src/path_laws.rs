//! What paths come to, segment by segment.
use crate::path;
use crate::path::PathComponent;
use crate::text;
use vstd::prelude::*;

verus! {

/// What a segment of a path means behind the first separator: nothing and `.`
/// mean nothing, `..` leads to the parent, and anything else is a name.
pub open spec fn segment_means(segment: Seq<char>) -> Seq<PathComponent<Seq<char>>> {
    if segment.len() == 0 || (segment.len() == 1 && segment[0] == '.') {
        seq![]
    } else if segment.len() == 2 && segment[0] == '.' && segment[1] == '.' {
        seq![PathComponent::ParentDir]
    } else {
        seq![PathComponent::Normal(segment)]
    }
}

/// What one segment contributes.
proof fn lemma_segment(segment: Seq<char>)
    ensures
        path::named_components(seq![segment]) == segment_means(segment),
        segment_means(segment).len() == 0 ==> segment == Seq::<char>::empty() || segment == seq![
            '.',
        ],
{
    Seq::lemma_filter_map_singleton(segment, |s: Seq<char>| path::segment_component(s));
    if segment.len() == 0 {
        assert(segment == Seq::<char>::empty());
    }
    if segment.len() == 1 && segment[0] == '.' {
        assert(segment == seq!['.']);
    }
    if segment.len() == 2 && segment[0] == '.' && segment[1] == '.' {
        assert(segment == seq!['.', '.']);
    }
}

/// A further segment adds what it means to the components of a path.
pub proof fn law_path_segment(p: Seq<char>, segment: Seq<char>)
    requires
        p.len() > 0,
        !segment.contains('/'),
    ensures
        path::path_components(p + seq!['/'] + segment) == path::path_components(p)
            + segment_means(segment),
{
    let f = |s: Seq<char>| path::segment_component(s);
    let whole = p + seq!['/'] + segment;
    text::lemma_split_concat(p, segment, '/');
    text::lemma_split_single(segment, '/');
    text::lemma_filter_map_concat(text::split_on(p, '/'), seq![segment], f);
    lemma_segment(segment);
    path::lemma_split_first(p, '/');
    path::lemma_split_first(whole, '/');
    assert(whole[0] == p[0]);
    assert(text::split_on(whole, '/')[0] == text::split_on(p, '/')[0]);
    let named = path::named_components(text::split_on(p, '/'));
    let more = segment_means(segment);
    assert(seq![PathComponent::RootDir] + (named + more) == (seq![PathComponent::RootDir] + named)
        + more);
    assert(seq![PathComponent::CurDir] + (named + more) == (seq![PathComponent::CurDir] + named)
        + more);
}

/// The first segment of a path means what any other does, but `.` counts there.
/// A path that begins with a separator starts at the root.
pub proof fn law_path_start(segment: Seq<char>)
    requires
        !segment.contains('/'),
    ensures
        path::path_components(segment) == if segment.len() == 1 && segment[0] == '.' {
            seq![PathComponent::CurDir]
        } else {
            segment_means(segment)
        },
        path::path_components(seq!['/'] + segment) == seq![PathComponent::RootDir]
            + segment_means(segment),
{
    let f = |s: Seq<char>| path::segment_component(s);
    let none = Seq::<char>::empty();
    text::lemma_split_single(segment, '/');
    lemma_segment(segment);
    if segment.len() > 0 {
        assert(segment.contains(segment[0]));
    }
    if segment.len() == 1 && segment[0] == '.' {
        assert(segment == seq!['.']);
        assert(seq![PathComponent::CurDir] + segment_means(segment) == seq![
            PathComponent::<Seq<char>>::CurDir,
        ]);
    }
    let whole = seq!['/'] + segment;
    assert(whole == none + seq!['/'] + segment);
    text::lemma_split_concat(none, segment, '/');
    text::lemma_split_single(none, '/');
    text::lemma_filter_map_concat(seq![none], seq![segment], f);
    lemma_segment(none);
    assert(segment_means(none) + segment_means(segment) == segment_means(segment));
}

/// A name: something that is not empty, has no separator in it, and is neither
/// `.` nor `..`.
pub open spec fn is_name(s: Seq<char>) -> bool {
    &&& s.len() > 0
    &&& !s.contains('/')
    &&& !(s.len() == 1 && s[0] == '.')
    &&& !(s.len() == 2 && s[0] == '.' && s[1] == '.')
}

/// A row of names.
pub open spec fn are_names(names: Seq<Seq<char>>) -> bool {
    forall|i: int| 0 <= i < names.len() ==> is_name(#[trigger] names[i])
}

/// Names with a separator between each two.
pub open spec fn slashed(names: Seq<Seq<char>>) -> Seq<char>
    decreases names.len(),
{
    if names.len() == 0 {
        seq![]
    } else if names.len() == 1 {
        names[0]
    } else {
        slashed(names.drop_last()) + seq!['/'] + names[names.len() - 1]
    }
}

/// Names as the components of a path.
pub open spec fn normal(names: Seq<Seq<char>>) -> Seq<PathComponent<Seq<char>>> {
    Seq::new(names.len(), |i: int| PathComponent::Normal(names[i]))
}

/// Names with separators between them make a path with those names as its
/// components, and that path is how those components are written.
pub proof fn law_path_of_names(names: Seq<Seq<char>>)
    requires
        are_names(names),
    ensures
        path::path_components(slashed(names)) == normal(names),
        path::written(normal(names)) == slashed(names),
        names.len() > 0 ==> slashed(names).len() > 0 && slashed(names)[0] != '/',
    decreases names.len(),
{
    if names.len() == 0 {
        law_path_start(Seq::<char>::empty());
        assert(normal(names) == Seq::<PathComponent<Seq<char>>>::empty());
    } else {
        let last = names[names.len() - 1];
        assert(is_name(last));
        assert(last.contains(last[0]));
        if names.len() == 1 {
            law_path_start(last);
            assert(normal(names) == seq![PathComponent::Normal(last)]);
        } else {
            let shorter = names.drop_last();
            assert forall|i: int| 0 <= i < shorter.len() implies is_name(#[trigger] shorter[i]) by {
                assert(shorter[i] == names[i]);
            }
            law_path_of_names(shorter);
            law_path_segment(slashed(shorter), last);
            assert(normal(names) == normal(shorter) + seq![PathComponent::Normal(last)]);
            assert(normal(names).drop_last() == normal(shorter));
        }
    }
}

/// Components are written with a separator between each two: `..` as it is, and
/// a name as it is.
pub proof fn law_written(cs: Seq<PathComponent<Seq<char>>>, name: Seq<char>)
    ensures
        path::written(Seq::<PathComponent<Seq<char>>>::empty()) == Seq::<char>::empty(),
        path::written(seq![PathComponent::Normal(name)]) == name,
        path::written(seq![PathComponent::<Seq<char>>::ParentDir]) == seq!['.', '.'],
        cs.len() > 0 ==> path::written(cs.push(PathComponent::Normal(name))) == path::written(cs)
            + seq!['/'] + name,
        cs.len() > 0 ==> path::written(cs.push(PathComponent::ParentDir)) == path::written(cs)
            + seq!['/', '.', '.'],
{
    assert(cs.push(PathComponent::Normal(name)).drop_last() == cs);
    assert(cs.push(PathComponent::ParentDir).drop_last() == cs);
    if cs.len() > 0 {
        assert(path::written(cs) + seq!['/'] + seq!['.', '.'] == path::written(cs) + seq![
            '/',
            '.',
            '.',
        ]);
    }
}

/// A path is put behind a directory with one separator between them. A path
/// that starts at the root is not.
pub proof fn law_join(base: Seq<char>, p: Seq<char>)
    ensures
        p.len() > 0 && p[0] == '/' ==> path::joined(base, p) == p,
        p.len() == 0 || p[0] != '/' ==> {
            &&& base.len() > 0 && base[base.len() - 1] != '/' ==> path::joined(base, p) == base
                + seq!['/'] + p
            &&& base.len() > 0 && base[base.len() - 1] == '/' ==> path::joined(base, p) == base + p
            &&& base.len() == 0 ==> path::joined(base, p) == p
        },
{
    if base.len() == 0 {
        assert(base + p == p);
    }
}

} // verus!
