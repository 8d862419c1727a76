use rattler_wheel::error::{ExtractError, IoError, IoErrorKind, ZipError};
use rattler_wheel::extraction::{
    apply_executable_bit, entry_action, entry_error, out_path, sanitize_zip_entry_name,
    DirectoryAction, DirectoryEvent, EntryAction, EntryFailure, Layout, ListedDirs, StreamedWheel,
};

#[test]
fn names_are_made_safe() {
    let safe = |name: &str| sanitize_zip_entry_name(name);
    assert_eq!(safe("demo.py"), Some("demo.py".to_string()));
    assert_eq!(safe("pkg//./mod.py"), Some("pkg/mod.py".to_string()));
    assert_eq!(safe("./pkg/"), Some("pkg".to_string()));
    assert_eq!(safe("a/../b"), Some("b".to_string()));
    assert_eq!(safe("a/../.."), None);
    assert_eq!(safe("../etc/passwd"), None);
    assert_eq!(safe("/etc/passwd"), None);
    assert_eq!(safe("a\0b"), None);
    assert_eq!(safe(""), Some(String::new()));
}

#[test]
fn safe_names_stay_inside_in_either_layout() {
    for name in ["a", "x/../a-1.data/scripts/b", "a-1.data/headers/../../c", "../a", "/a"] {
        if let Some(relpath) = sanitize_zip_entry_name(name) {
            for layout in [Layout::Archive, Layout::Installed] {
                let path = out_path(layout, &relpath);
                assert!(!path.starts_with('/'));
                assert!(path.split('/').all(|segment| segment != ".."));
            }
        }
    }
}

#[test]
fn files_go_where_the_layout_puts_them() {
    let script = "demo-1.0.data/scripts/demo";
    assert_eq!(out_path(Layout::Archive, script), script);
    assert_eq!(out_path(Layout::Installed, script), "python-scripts/demo");
}

#[test]
fn directories_are_made_where_they_are_asked_for() {
    assert_eq!(
        entry_action(Layout::Archive, ListedDirs::Make, Some("pkg"), true),
        EntryAction::MakeDir("pkg".to_string())
    );
    assert_eq!(
        entry_action(Layout::Archive, ListedDirs::Pass, Some("pkg"), true),
        EntryAction::Skip
    );
    assert_eq!(
        entry_action(Layout::Installed, ListedDirs::Pass, Some("a.py"), false),
        EntryAction::WriteFile("site-packages/a.py".to_string())
    );
    assert_eq!(
        entry_action(Layout::Archive, ListedDirs::Make, None, false),
        EntryAction::Skip
    );
}

#[test]
fn permissions_reach_their_file() {
    let mut wheel = StreamedWheel::new();
    assert_eq!(
        wheel.entry(Some("demo.py"), false, 0),
        EntryAction::WriteFile("demo.py".to_string())
    );
    assert_eq!(wheel.entry(None, false, 60), EntryAction::Skip);
    assert_eq!(
        wheel.entry(Some("demo-1.0.data"), true, 120),
        EntryAction::MakeDir("demo-1.0.data".to_string())
    );
    assert_eq!(
        wheel.entry(Some("demo-1.0.data/scripts/demo"), false, 180),
        EntryAction::WriteFile("demo-1.0.data/scripts/demo".to_string())
    );

    let seen = |offset| wheel.directory_event(&DirectoryEvent::Entry(offset, Some(0o755)));
    assert_eq!(
        seen(180),
        DirectoryAction::Apply("demo-1.0.data/scripts/demo".to_string(), Some(0o755))
    );
    assert_eq!(seen(0), DirectoryAction::Apply("demo.py".to_string(), Some(0o755)));
    assert_eq!(seen(60), DirectoryAction::Pass);
    assert_eq!(seen(120), DirectoryAction::Pass);
    assert_eq!(wheel.directory_event(&DirectoryEvent::End), DirectoryAction::Stop);
    assert_eq!(wheel.directory_event(&DirectoryEvent::Failed), DirectoryAction::Stop);
}

#[test]
fn both_ways_unpack_the_same() {
    let mut wheel = StreamedWheel::new();
    for (i, name) in ["a.py", "pkg/", "../x", "a-1.data/scripts/b"].iter().enumerate() {
        let relpath = sanitize_zip_entry_name(name);
        let is_dir = name.ends_with('/');
        assert_eq!(
            wheel.entry(relpath.as_deref(), is_dir, i as u64),
            entry_action(Layout::Archive, ListedDirs::Make, relpath.as_deref(), is_dir)
        );
    }
}

#[test]
fn plain_names_are_kept() {
    for name in ["a.py", "pkg/mod.py", "demo-1.0.data/scripts/demo", "\u{e9}t\u{e9}.py"] {
        assert_eq!(sanitize_zip_entry_name(name), Some(name.to_string()));
    }
}

#[test]
fn executable_files_stay_executable() {
    assert_eq!(apply_executable_bit(Some(0o755), 0o644), Some(0o755));
    assert_eq!(apply_executable_bit(Some(0o100), 0o640), Some(0o751));
    assert_eq!(apply_executable_bit(Some(0o755), 0o755), None);
    assert_eq!(apply_executable_bit(Some(0o644), 0o644), None);
    assert_eq!(apply_executable_bit(None, 0o644), None);
}

#[test]
fn failures_say_what_went_wrong() {
    let says = |failure, kind, message: &str| {
        assert_eq!(
            entry_error(failure),
            ExtractError::IoError(IoError::new(kind, message))
        );
    };
    says(EntryFailure::Missing, IoErrorKind::NotFound, "entry not found");
    says(
        EntryFailure::InvalidName("not UTF-8".to_string()),
        IoErrorKind::InvalidData,
        "not UTF-8",
    );
    says(EntryFailure::Unreadable("broken".to_string()), IoErrorKind::Other, "broken");
    assert_eq!(
        entry_error(EntryFailure::NotStreamable("data descriptors".to_string())),
        ExtractError::ZipError(ZipError::UnsupportedArchive("data descriptors".to_string()))
    );
    says(
        EntryFailure::Io(IoError::new(IoErrorKind::InvalidInput, "odd")),
        IoErrorKind::InvalidInput,
        "odd",
    );
}
