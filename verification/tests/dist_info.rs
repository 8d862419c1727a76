use rattler_wheel::dist_info::{find_dist_info_dir, DirEntry};
use rattler_wheel::error::{IoError, IoErrorKind};

fn directory(name: &str) -> Result<DirEntry, IoError> {
    Ok(DirEntry { name: name.to_string(), is_dir: true })
}

fn file(name: &str) -> Result<DirEntry, IoError> {
    Ok(DirEntry { name: name.to_string(), is_dir: false })
}

#[test]
fn test_find_dist_info_dir_looks_at_archive_root() {
    let listing = vec![file("foo.py"), directory("foo-1.0.dist-info")];
    assert_eq!(find_dist_info_dir(&listing), Ok(1));
}

#[test]
fn a_file_is_no_dist_info_directory() {
    let listing = vec![file("foo-1.0.dist-info"), directory("foo")];
    assert_eq!(
        find_dist_info_dir(&listing),
        Err(IoError::new(
            IoErrorKind::NotFound,
            "could not find a '*.dist-info' directory in wheel archive"
        ))
    );
}

#[test]
fn there_is_one_dist_info_directory() {
    let listing = vec![directory("a-1.dist-info"), file("x"), directory("b-1.dist-info")];
    assert_eq!(
        find_dist_info_dir(&listing),
        Err(IoError::new(
            IoErrorKind::InvalidData,
            "found multiple '*.dist-info' directories in wheel archive"
        ))
    );
}

#[test]
fn the_first_failure_counts() {
    let failure = IoError::new(IoErrorKind::Other, "input/output error");
    let listing = vec![directory("a-1.dist-info"), Err(failure.clone()), directory("b-1.dist-info")];
    assert_eq!(find_dist_info_dir(&listing), Err(failure));
}
