use rattler_wheel::entry_points::EntryPoint;
use rattler_wheel::error::{InstallError, IoError, IoErrorKind, WheelInstallError};
use rattler_wheel::link::{
    link_wheel_sync, synthetic_index_json, synthetic_paths_json, InstallOptions, LinkJson,
    LinkPlan, NoArchLinks, NoArchType, PackageName, PackageRecord, PathText, PathType,
    PythonEntryPoints, ShebangPass,
};
use rattler_wheel::record::WheelRecord;

fn demo() -> PackageRecord<&'static str> {
    PackageRecord {
        name: PackageName { source: "demo".to_string(), normalized: "demo".to_string() },
        version: "1.0".to_string(),
        build: "py3_none_any_0".to_string(),
        build_number: 3,
        noarch: NoArchType::OnePlatform,
        subdir: "linux-64".to_string(),
        md5: None,
        sha256: None,
        size: Some(9),
        rest: "the rest",
    }
}

fn record() -> WheelRecord {
    WheelRecord::parse(
        "demo.py,sha256=oVfM8HHRJHtSpvT6H9nCwXlH0Br1nhIQyfmAvxSHu9c,29\n\
         demo-1.0.data/scripts/demo-shebang-script,sha256=,22\n\
         demo-1.0.dist-info/RECORD,,\n",
    )
    .unwrap()
}

fn options() -> InstallOptions {
    InstallOptions {
        paths_json: None,
        index_json: None,
        link_json: None,
        is_wheel: false,
        has_python: true,
        target_prefix: None,
        platform_is_unix: None,
    }
}

fn cli() -> EntryPoint {
    EntryPoint {
        command: "demo-cli".to_string(),
        module: "demo".to_string(),
        function: "main".to_string(),
    }
}

fn prefix() -> PathText {
    PathText::Utf8("/env".to_string())
}

fn plan(entry_points: Vec<EntryPoint>, options: InstallOptions) -> LinkPlan {
    link_wheel_sync(Ok(record()), Ok(entry_points), &demo(), &prefix(), true, options).unwrap()
}

#[test]
fn the_index_is_linked_as_python_for_any_platform() {
    let index = synthetic_index_json(&demo());
    assert_eq!(index.name.source, "demo");
    assert_eq!(index.noarch, NoArchType::Python);
    assert_eq!(index.build, "py3_none_any_0");
    assert_eq!(index.build_number, 3);
    assert_eq!(index.version, "1.0");
    assert_eq!(index.subdir, None);
    assert!(index.depends.is_empty());
}

#[test]
fn the_manifest_lists_every_file_of_the_record() {
    let paths = synthetic_paths_json(&record());
    assert_eq!(paths.paths_version, 1);
    assert_eq!(paths.paths.len(), 3);
    assert_eq!(paths.paths[0].relative_path, "demo.py");
    assert_eq!(paths.paths[0].size_in_bytes, Some(29));
    assert_eq!(paths.paths[0].sha256, record().entries[0].sha256);
    assert!(paths.paths[0].sha256.is_some());
    assert_eq!(paths.paths[1].relative_path, "demo-1.0.data/scripts/demo-shebang-script");
    for path in &paths.paths {
        assert_eq!(path.path_type, PathType::HardLink);
        assert!(!path.no_link);
        assert_eq!(path.prefix_placeholder, None);
    }
}

#[test]
fn a_wheel_is_linked_with_what_it_does_not_have() {
    let plan = plan(vec![cli()], options());
    assert!(plan.options.is_wheel);
    assert_eq!(plan.options.paths_json, Some(synthetic_paths_json(&record())));
    assert_eq!(plan.options.index_json, Some(synthetic_index_json(&demo())));
    assert_eq!(
        plan.options.link_json,
        Some(Some(LinkJson {
            noarch: NoArchLinks::Python(PythonEntryPoints { entry_points: vec![cli()] }),
            package_metadata_version: 1,
        }))
    );
    assert_eq!(
        plan.shebang_pass,
        Ok(Some(ShebangPass {
            target_prefix: "/env".to_string(),
            scripts: vec!["python-scripts/demo-shebang-script".to_string()],
        }))
    );
}

#[test]
fn a_wheel_without_entry_points_has_no_link_instructions() {
    assert_eq!(plan(Vec::new(), options()).options.link_json, Some(None));
}

#[test]
fn scripts_need_an_interpreter_and_a_unix_platform() {
    let without_python = InstallOptions { has_python: false, ..options() };
    assert_eq!(plan(Vec::new(), without_python).shebang_pass, Ok(None));
    let for_windows = InstallOptions { platform_is_unix: Some(false), ..options() };
    assert_eq!(plan(Vec::new(), for_windows).shebang_pass, Ok(None));
    let on_windows =
        link_wheel_sync(Ok(record()), Ok(Vec::new()), &demo(), &prefix(), false, options())
            .unwrap();
    assert_eq!(on_windows.shebang_pass, Ok(None));
}

#[test]
fn the_target_prefix_goes_before_the_target_directory() {
    let elsewhere = InstallOptions {
        target_prefix: Some(PathText::Utf8("/elsewhere".to_string())),
        ..options()
    };
    let pass = plan(Vec::new(), elsewhere).shebang_pass.unwrap().unwrap();
    assert_eq!(pass.target_prefix, "/elsewhere");

    let odd = InstallOptions { target_prefix: Some(PathText::NotUtf8(vec![0xff])), ..options() };
    assert_eq!(
        plan(Vec::new(), odd).shebang_pass,
        Err(WheelInstallError::Install(InstallError::TargetPrefixIsNotUtf8))
    );
}

#[test]
fn a_wheel_that_cannot_be_read_is_not_linked() {
    let failure = || IoError::new(IoErrorKind::NotFound, "no RECORD");
    assert_eq!(
        link_wheel_sync(Err(failure()), Ok(Vec::new()), &demo(), &prefix(), true, options()),
        Err(WheelInstallError::FailedToReadRecord(failure()))
    );
    let unreadable = || WheelInstallError::FailedToReadEntryPoints(failure());
    assert_eq!(
        link_wheel_sync(Ok(record()), Err(unreadable()), &demo(), &prefix(), true, options()),
        Err(unreadable())
    );
}
