use rattler_wheel::entry_points::{
    parse_console_scripts, read_console_script_entry_points, valid_entry_points, EntryPoint,
};
use rattler_wheel::error::{IoError, IoErrorKind, WheelInstallError};

#[test]
fn test_parse_console_scripts() {
    let entry_points = "[console_scripts]\n\
         foo = foo.cli:main\n\
         bar = foo.cli:bar_main\n\
         \n\
         [some.other.section]\n\
         baz = foo.other:baz\n";
    let scripts = parse_console_scripts(entry_points);
    assert_eq!(
        scripts,
        vec![
            "foo = foo.cli:main".to_string(),
            "bar = foo.cli:bar_main".to_string(),
        ]
    );
}

#[test]
fn test_parse_console_scripts_strips_extras_marker() {
    let entry_points = "[console_scripts]\nfoo = foo.cli:main [extra]\n";
    let scripts = parse_console_scripts(entry_points);
    assert_eq!(scripts, vec!["foo = foo.cli:main".to_string()]);
}

#[test]
fn comments_and_white_space_declare_nothing() {
    let scripts = parse_console_scripts("  [Console_Scripts]  \n# a = b\n; c = d\n\n  e = f:g  \r\n");
    assert_eq!(scripts, ["e = f:g"]);
}

#[test]
fn a_section_can_come_back() {
    let scripts = parse_console_scripts("a = b\n[console_scripts]\nc = d\n[x]\ne = f\n[console_scripts]\ng = h");
    assert_eq!(scripts, ["c = d", "g = h"]);
}

#[test]
fn extras_alone_declare_nothing() {
    let none: Vec<String> = Vec::new();
    assert_eq!(parse_console_scripts("[console_scripts]\n[x] y\n"), none);
    assert_eq!(parse_console_scripts("a = b:c\n"), none);
}

#[test]
fn a_missing_file_declares_nothing() {
    let none: Vec<String> = Vec::new();
    let missing = IoError::new(IoErrorKind::NotFound, "no such file");
    assert_eq!(read_console_script_entry_points(Ok(Err(missing.clone()))), Ok(none));
    assert_eq!(
        read_console_script_entry_points(Err(missing.clone())),
        Err(WheelInstallError::FailedToReadRecord(missing))
    );
}

#[test]
fn an_unreadable_file_is_a_failure() {
    let failure = IoError::new(IoErrorKind::Other, "permission denied");
    assert_eq!(
        read_console_script_entry_points(Ok(Err(failure.clone()))),
        Err(WheelInstallError::FailedToReadEntryPoints(failure))
    );
    assert_eq!(
        read_console_script_entry_points(Ok(Ok("[console_scripts]\na = b:c\n".to_string()))),
        Ok(vec!["a = b:c".to_string()])
    );
}

#[test]
fn declarations_that_are_no_entry_points_are_left_out() {
    let point = |command: &str| EntryPoint {
        command: command.to_string(),
        module: "foo.cli".to_string(),
        function: "main".to_string(),
    };
    assert_eq!(
        valid_entry_points(vec![Some(point("a")), None, Some(point("b"))]),
        vec![point("a"), point("b")]
    );
}
