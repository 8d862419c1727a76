use rattler_wheel::category::{
    is_wheel_script_path, map_wheel_archive_path, wheel_archive_category, WheelDataCategory,
};

#[test]
fn test_map_wheel_archive_path_root_file() {
    assert_eq!(map_wheel_archive_path("six.py"), "site-packages/six.py");
    assert_eq!(
        map_wheel_archive_path("six-1.9.0.dist-info/RECORD"),
        "site-packages/six-1.9.0.dist-info/RECORD"
    );
}

#[test]
fn test_map_wheel_archive_path_data_purelib_and_platlib() {
    assert_eq!(
        map_wheel_archive_path("foo-1.0.data/purelib/foo/bar.py"),
        "site-packages/foo/bar.py"
    );
    assert_eq!(
        map_wheel_archive_path("foo-1.0.data/platlib/foo/_native.so"),
        "site-packages/foo/_native.so"
    );
}

#[test]
fn test_map_wheel_archive_path_data_scripts() {
    assert_eq!(
        map_wheel_archive_path("foo-1.0.data/scripts/foo-cli"),
        "python-scripts/foo-cli"
    );
}

#[test]
fn test_map_wheel_archive_path_data_data_and_headers() {
    assert_eq!(
        map_wheel_archive_path("foo-1.0.data/data/share/foo/config.ini"),
        "share/foo/config.ini"
    );
    assert_eq!(map_wheel_archive_path("foo-1.0.data/headers/foo.h"), "foo.h");
}

#[test]
fn test_is_wheel_script_path() {
    assert!(is_wheel_script_path("foo-1.0.data/scripts/foo-cli"));
    assert!(!is_wheel_script_path("foo-1.0.data/purelib/foo/bar.py"));
    assert!(!is_wheel_script_path("foo.py"));
}

#[test]
fn every_category_has_its_name() {
    let named = [
        ("purelib", WheelDataCategory::Purelib),
        ("platlib", WheelDataCategory::Platlib),
        ("scripts", WheelDataCategory::Scripts),
        ("headers", WheelDataCategory::Headers),
        ("data", WheelDataCategory::Data),
        ("something-new", WheelDataCategory::Data),
    ];
    for (name, category) in named {
        assert_eq!(
            wheel_archive_category(&format!("foo-1.0.data/{name}/a/b")),
            Some((category, "a/b".to_string()))
        );
    }
}

#[test]
fn paths_outside_a_data_directory_have_no_category() {
    assert_eq!(wheel_archive_category(""), None);
    assert_eq!(wheel_archive_category("foo.py"), None);
    assert_eq!(wheel_archive_category("foo-1.0.data"), None);
    assert_eq!(wheel_archive_category("foo/scripts/bar"), None);
    assert_eq!(wheel_archive_category("foo-1.0.data/../scripts/bar"), None);
    assert_eq!(wheel_archive_category("/foo-1.0.data/scripts/bar"), None);
    assert_eq!(wheel_archive_category("./foo-1.0.data/scripts/bar"), None);
}

#[test]
fn a_category_directory_itself_has_an_empty_rest() {
    assert_eq!(
        wheel_archive_category("foo-1.0.data/scripts"),
        Some((WheelDataCategory::Scripts, String::new()))
    );
    assert_eq!(map_wheel_archive_path("foo-1.0.data/scripts"), "python-scripts/");
    assert_eq!(map_wheel_archive_path("foo-1.0.data/data"), "");
}

#[test]
fn paths_are_read_by_their_components() {
    assert_eq!(
        map_wheel_archive_path("foo-1.0.data//scripts/./foo-cli/"),
        "python-scripts/foo-cli"
    );
    assert_eq!(map_wheel_archive_path("foo-1.0.data/headers/a/../b.h"), "a/../b.h");
    assert_eq!(map_wheel_archive_path("/etc/passwd"), "/etc/passwd");
}

#[test]
fn scripts_alone_go_to_python_scripts() {
    for path in ["a.py", "a-1.data/purelib/a", "a-1.data/platlib/a"] {
        assert!(!is_wheel_script_path(path));
        assert!(map_wheel_archive_path(path).starts_with("site-packages/"));
    }
    assert!(is_wheel_script_path("a-1.data/scripts/a"));
    assert!(map_wheel_archive_path("a-1.data/scripts/a").starts_with("python-scripts/"));
}

#[test]
fn whatever_maps_under_python_scripts_is_a_script() {
    assert_eq!(map_wheel_archive_path("x.data/data/python-scripts/y"), "python-scripts/y");
    assert!(is_wheel_script_path("x.data/data/python-scripts/y"));
    assert!(is_wheel_script_path("x.data/headers/python-scripts/y"));
    assert!(is_wheel_script_path("x.data/data/python-scripts"));
    assert!(!is_wheel_script_path("x.data/data/share/python-scripts/y"));
    assert!(!is_wheel_script_path("x.data/data/python-scripts2/y"));
    assert!(!is_wheel_script_path("python-scripts/y"));
    assert!(!is_wheel_script_path("/python-scripts/y"));
    assert!(!is_wheel_script_path("x.data/data"));
}
