use rattler_wheel::error::{IoError, IoErrorKind, WheelInstallError};
use rattler_wheel::record::WheelRecord;
use rattler_wheel::shebang::{
    fix_up_script_shebangs, replace_placeholder, rewrite_wheel_script_shebang,
};

#[test]
fn placeholders_are_replaced() {
    assert_eq!(
        replace_placeholder(b"#!python\nprint('hi')\n", "#!/env/bin/python3"),
        Some(b"#!/env/bin/python3\nprint('hi')\n".to_vec())
    );
    assert_eq!(
        replace_placeholder(b"#!pythonw\r\nx", "#!p"),
        Some(b"#!p\nx".to_vec())
    );
    assert_eq!(replace_placeholder(b"#!python", "#!p"), Some(b"#!p".to_vec()));
}

#[test]
fn other_scripts_are_left_alone() {
    assert_eq!(replace_placeholder(b"#!/bin/sh\necho hi\n", "#!p"), None);
    assert_eq!(replace_placeholder(b"#!python3\n", "#!p"), None);
    assert_eq!(replace_placeholder(b" #!python\n", "#!p"), None);
    assert_eq!(replace_placeholder(b"\n#!python\n", "#!p"), None);
    assert_eq!(replace_placeholder(b"", "#!p"), None);
}

#[test]
fn rewriting_is_done_once() {
    let once = replace_placeholder(b"#!python\nx", "#!/usr/bin/env python").unwrap();
    assert_eq!(replace_placeholder(&once, "#!/usr/bin/env python"), None);
}

#[test]
fn a_missing_script_needs_nothing() {
    let missing = IoError::new(IoErrorKind::NotFound, "no such file");
    assert_eq!(rewrite_wheel_script_shebang(Err(missing), "#!p"), Ok(None));
    let failure = IoError::new(IoErrorKind::Other, "permission denied");
    assert_eq!(
        rewrite_wheel_script_shebang(Err(failure.clone()), "#!p"),
        Err(WheelInstallError::Io(failure))
    );
    assert_eq!(
        rewrite_wheel_script_shebang(Ok(b"#!python\n".to_vec()), "#!p"),
        Ok(Some(b"#!p\n".to_vec()))
    );
    assert_eq!(rewrite_wheel_script_shebang(Ok(b"\x7fELF".to_vec()), "#!p"), Ok(None));
}

#[test]
fn scripts_are_looked_at_in_their_order() {
    let record = WheelRecord::parse(
        "demo.py,,\ndemo-1.0.data/scripts/b,,\ndemo-1.0.data/data/python-scripts/x,,\ndemo-1.0.data/scripts/a,,\n",
    )
    .unwrap();
    assert_eq!(
        fix_up_script_shebangs(&record),
        ["python-scripts/b", "python-scripts/a"]
    );
}
