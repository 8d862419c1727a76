//! Where the files of a wheel go.
//!
//! Most files of a wheel are installed into `site-packages`. The files inside
//! a `<name>-<version>.data/` directory are installed by category: `purelib`
//! and `platlib` into `site-packages`, `scripts` into the directory of
//! executables, which `python-scripts` stands for, and the rest relative to
//! the root of the environment.
//!
//! The mapping decides where a file is installed. It does not change where a
//! file lies in an unpacked wheel: an unpacked wheel has the layout of the
//! archive, so that the hashes of its `RECORD` can be held against it.
use crate::path;
use crate::path::PathComponent;
use crate::text;
use vstd::prelude::*;
use vstd::string::*;

verus! {

/// The category of a path inside a wheel's `<name>-<version>.data/` directory.
#[derive(Debug, Clone, Copy, PartialEq, Eq, Structural)]
pub enum WheelDataCategory {
    /// `purelib/`: installed into `site-packages/`.
    Purelib,
    /// `platlib/`: installed into `site-packages/`.
    Platlib,
    /// `scripts/`: installed among the executables of the environment.
    Scripts,
    /// `headers/`: installed as it is, relative to the environment's root.
    Headers,
    /// `data/` or any other category: installed as it is, relative to the
    /// environment's root.
    Data,
}

/// The category with the given name.
pub open spec fn category_named(name: Seq<char>) -> WheelDataCategory {
    if name == "purelib"@ {
        WheelDataCategory::Purelib
    } else if name == "platlib"@ {
        WheelDataCategory::Platlib
    } else if name == "scripts"@ {
        WheelDataCategory::Scripts
    } else if name == "headers"@ {
        WheelDataCategory::Headers
    } else {
        WheelDataCategory::Data
    }
}

/// Whether a path starts with a `*.data` directory and a name inside it.
pub open spec fn in_data_dir(archive_path: Seq<char>) -> bool {
    let cs = path::path_components(archive_path);
    &&& cs.len() >= 2
    &&& cs[0] matches PathComponent::Normal(first)
    &&& ".data"@.is_suffix_of(first)
    &&& cs[1] is Normal
}

/// The category that a path belongs to, and the path inside that category's
/// directory, if it is inside a `*.data` directory.
pub open spec fn archive_category(archive_path: Seq<char>) -> Option<
    (WheelDataCategory, Seq<char>),
> {
    let cs = path::path_components(archive_path);
    if in_data_dir(archive_path) {
        Some((category_named(cs[1]->Normal_0), path::written(cs.skip(2))))
    } else {
        None
    }
}

/// Where a file of a wheel is installed.
pub open spec fn installed_path(archive_path: Seq<char>) -> Seq<char> {
    match archive_category(archive_path) {
        Some((category, rest)) => match category {
            WheelDataCategory::Purelib | WheelDataCategory::Platlib => path::joined(
                "site-packages"@,
                rest,
            ),
            WheelDataCategory::Scripts => path::joined("python-scripts"@, rest),
            WheelDataCategory::Headers | WheelDataCategory::Data => rest,
        },
        None => path::joined("site-packages"@, archive_path),
    }
}

/// The value of an optional category and path.
pub open spec fn category_view(found: Option<(WheelDataCategory, String)>) -> Option<
    (WheelDataCategory, Seq<char>),
> {
    match found {
        Some((category, rest)) => Some((category, rest@)),
        None => None,
    }
}

/// Determines whether a path, as it stands in a wheel archive or in a wheel's
/// `RECORD`, is inside a `<name>-<version>.data/<category>/` directory. Returns
/// the category and the path relative to that directory if it is.
pub fn wheel_archive_category(path: &str) -> (found: Option<(WheelDataCategory, String)>)
    ensures
        category_view(found) == archive_category(path@),
{
    let chars = text::to_chars(path);
    let cs = path::components(chars.as_slice());
    let ghost views = path::component_views(cs@);
    if cs.len() < 2 {
        return None;
    }
    proof {
        assert(views[0] == path::component_view(cs@[0]));
        assert(views[1] == path::component_view(cs@[1]));
    }
    match &cs[0] {
        PathComponent::Normal(first) => {
            if !text::ends_with(first, ".data") {
                return None;
            }
        },
        _ => {
            return None;
        },
    }
    match &cs[1] {
        PathComponent::Normal(name) => {
            let category = if text::is_text(name, "purelib") {
                WheelDataCategory::Purelib
            } else if text::is_text(name, "platlib") {
                WheelDataCategory::Platlib
            } else if text::is_text(name, "scripts") {
                WheelDataCategory::Scripts
            } else if text::is_text(name, "headers") {
                WheelDataCategory::Headers
            } else {
                WheelDataCategory::Data
            };
            Some((category, path::write_components(&cs, 2)))
        },
        _ => None,
    }
}

/// Maps a path, as it stands in a wheel archive or in a wheel's `RECORD`, onto
/// the path where the file is installed, relative to the environment's root
/// and with `site-packages` and `python-scripts` standing for the directories
/// that depend on the Python version.
pub fn map_wheel_archive_path(path: &str) -> (mapped: String)
    ensures
        mapped@ == installed_path(path@),
{
    match wheel_archive_category(path) {
        Some((category, rest)) => match category {
            WheelDataCategory::Purelib | WheelDataCategory::Platlib => path::join(
                "site-packages",
                rest.as_str(),
            ),
            WheelDataCategory::Scripts => path::join("python-scripts", rest.as_str()),
            WheelDataCategory::Headers | WheelDataCategory::Data => rest,
        },
        None => path::join("site-packages", path),
    }
}

/// Whether a path is installed among the executables of the environment, that
/// is, under `python-scripts`.
pub open spec fn is_script(archive_path: Seq<char>) -> bool {
    let installed = path::path_components(installed_path(archive_path));
    installed.len() > 0 && installed[0] == PathComponent::Normal("python-scripts"@)
}

/// Returns `true` if a file of a wheel is installed among the executables of
/// the environment, that is, if its path maps under `python-scripts/`.
pub fn is_wheel_script_path(path: &str) -> (b: bool)
    ensures
        b == is_script(path@),
{
    let mapped = map_wheel_archive_path(path);
    let chars = text::to_chars(mapped.as_str());
    let cs = path::components(chars.as_slice());
    let ghost views = path::component_views(cs@);
    if cs.len() == 0 {
        assert(views.len() == 0);
        return false;
    }
    assert(views[0] == path::component_view(cs@[0]));
    match &cs[0] {
        PathComponent::Normal(first) => text::is_text(first, "python-scripts"),
        _ => false,
    }
}

/// Whether a path is that of a file of the `scripts` category.
pub open spec fn in_scripts_category(archive_path: Seq<char>) -> bool {
    archive_category(archive_path) matches Some((category, _)) && category
        == WheelDataCategory::Scripts
}

/// The components of the path where a file is installed: those inside the
/// category's directory, after the directory that the category goes to.
pub open spec fn installed_components(archive_path: Seq<char>) -> Seq<PathComponent<Seq<char>>> {
    let cs = path::path_components(archive_path);
    match archive_category(archive_path) {
        Some((category, _)) => match category {
            WheelDataCategory::Purelib | WheelDataCategory::Platlib => seq![
                PathComponent::Normal("site-packages"@),
            ] + cs.skip(2),
            WheelDataCategory::Scripts => seq![PathComponent::Normal("python-scripts"@)] + cs.skip(
                2,
            ),
            WheelDataCategory::Headers | WheelDataCategory::Data => cs.skip(2),
        },
        None => if path::is_absolute(archive_path) {
            cs
        } else {
            seq![PathComponent::Normal("site-packages"@)] + path::without_cur_dir(cs)
        },
    }
}

/// The two directory names are names.
proof fn lemma_directory_names()
    ensures
        path::segment_component("site-packages"@) == Some(
            PathComponent::Normal("site-packages"@),
        ),
        path::segment_component("python-scripts"@) == Some(
            PathComponent::Normal("python-scripts"@),
        ),
        !"site-packages"@.contains('/'),
        !"python-scripts"@.contains('/'),
        "site-packages"@ != "python-scripts"@,
{
    reveal_strlit("site-packages");
    reveal_strlit("python-scripts");
    let empty = Seq::<char>::empty();
    assert("site-packages"@.len() == 13);
    assert("python-scripts"@.len() == 14);
    assert(seq!['.'].len() == 1);
    assert(seq!['.', '.'].len() == 2);
    assert(empty.len() == 0);
}

/// The path inside a category's directory is made of names and `..`.
proof fn lemma_rest_is_named(archive_path: Seq<char>)
    requires
        in_data_dir(archive_path),
    ensures
        !path::is_absolute(archive_path),
        forall|k: int|
            0 <= k < path::path_components(archive_path).skip(2).len() ==> path::is_named(
                #[trigger] path::path_components(archive_path).skip(2)[k],
            ),
{
    let cs = path::path_components(archive_path);
    if path::is_absolute(archive_path) {
        assert(cs[0] is RootDir);
    }
    path::lemma_relative_components(archive_path);
    let named = path::without_cur_dir(cs);
    assert forall|k: int| 0 <= k < cs.skip(2).len() implies path::is_named(
        #[trigger] cs.skip(2)[k],
    ) by {
        assert(cs.skip(2)[k] == named[k + 2]);
    }
}

/// A file is installed in the directory of its category, or in
/// `site-packages`, under the components that its path has there.
pub proof fn law_installed_components(archive_path: Seq<char>)
    ensures
        path::path_components(installed_path(archive_path)) == installed_components(archive_path),
{
    let cs = path::path_components(archive_path);
    lemma_directory_names();
    match archive_category(archive_path) {
        Some((category, rest)) => {
            lemma_rest_is_named(archive_path);
            path::lemma_written_components(cs.skip(2));
            assert(path::without_cur_dir(cs.skip(2)) == cs.skip(2)) by {
                if cs.skip(2).len() > 0 {
                    assert(path::is_named(cs.skip(2)[0]));
                }
            }
            match category {
                WheelDataCategory::Purelib | WheelDataCategory::Platlib => {
                    path::lemma_joined_components("site-packages"@, rest);
                },
                WheelDataCategory::Scripts => {
                    path::lemma_joined_components("python-scripts"@, rest);
                },
                _ => {},
            }
        },
        None => {
            if !path::is_absolute(archive_path) {
                path::lemma_joined_components("site-packages"@, archive_path);
            }
        },
    }
}

/// Scripts are the files that are installed under `python-scripts`: every file
/// of the `scripts` category, and those of the `headers` and `data` categories
/// whose own path leads there. Everything else is installed under
/// `site-packages`, unless its path is absolute.
pub proof fn law_scripts_go_to_python_scripts(archive_path: Seq<char>)
    ensures
        in_scripts_category(archive_path) ==> is_script(archive_path),
        is_script(archive_path) ==> in_scripts_category(archive_path) || (archive_category(
            archive_path,
        ) matches Some((category, _)) && (category == WheelDataCategory::Headers || category
            == WheelDataCategory::Data) && path::path_components(archive_path).len() > 2
            && path::path_components(archive_path)[2] == PathComponent::Normal(
            "python-scripts"@,
        )),
        archive_category(archive_path) is None && !path::is_absolute(archive_path)
            ==> path::path_components(installed_path(archive_path)).len() > 0
            && path::path_components(installed_path(archive_path))[0] == PathComponent::Normal(
            "site-packages"@,
        ),
{
    law_installed_components(archive_path);
    lemma_directory_names();
}

/// A path made of names alone is installed under a path made of names alone:
/// nothing leaves the environment's root.
pub proof fn law_names_stay_inside(archive_path: Seq<char>)
    requires
        forall|k: int|
            0 <= k < path::path_components(archive_path).len() ==> (#[trigger] path::path_components(
                archive_path,
            )[k]) is Normal,
    ensures
        !path::is_absolute(installed_path(archive_path)),
        forall|k: int|
            0 <= k < path::path_components(installed_path(archive_path)).len() ==> (
            #[trigger] path::path_components(installed_path(archive_path))[k]) is Normal,
{
    let cs = path::path_components(archive_path);
    law_installed_components(archive_path);
    if path::is_absolute(archive_path) {
        assert(cs[0] is RootDir);
    }
    let installed = installed_components(archive_path);
    if path::is_absolute(installed_path(archive_path)) {
        assert(installed[0] is RootDir);
    }
    assert forall|k: int| 0 <= k < installed.len() implies (#[trigger] installed[k]) is Normal by {
        match archive_category(archive_path) {
            Some((category, _)) => {
                if category == WheelDataCategory::Headers || category == WheelDataCategory::Data {
                    assert(installed[k] == cs[k + 2]);
                } else if k > 0 {
                    assert(installed[k] == cs[k + 1]);
                }
            },
            None => {
                if k > 0 {
                    assert(cs.len() > 0);
                    assert(cs[0] is Normal);
                    assert(installed[k] == cs[k - 1]);
                }
            },
        }
    }
}

} // verus!
