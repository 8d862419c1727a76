use rattler_wheel::error::{IoError, IoErrorKind};
use rattler_wheel::hash::parse_record_hash;
use rattler_wheel::record::{split_record_line, WheelRecord, WheelRecordEntry};

fn parsed(content: &str) -> Vec<WheelRecordEntry> {
    WheelRecord::parse(content).unwrap().entries
}

#[test]
fn test_wheel_record_parse() {
    let record = "six.py,sha256=oVfM8HHRJHtSpvT6H9nCwXlH0Br1nhIQyfmAvxSHu9c,34547\n\
         six-1.9.0.dist-info/RECORD,,\n\
         \n";
    let parsed = WheelRecord::parse(record).unwrap();
    assert_eq!(parsed.entries.len(), 2);
    assert_eq!(parsed.entries[0].archive_path, "six.py");
    assert!(parsed.entries[0].sha256.is_some());
    assert_eq!(parsed.entries[0].size, Some(34547));
    assert_eq!(parsed.entries[1].archive_path, "six-1.9.0.dist-info/RECORD");
    assert_eq!(parsed.entries[1].sha256, None);
    assert_eq!(parsed.entries[1].size, None);
}

#[test]
fn a_hash_is_decoded() {
    let digest = parse_record_hash("sha256=oVfM8HHRJHtSpvT6H9nCwXlH0Br1nhIQyfmAvxSHu9c").unwrap();
    assert_eq!(
        hex::encode(digest),
        "a157ccf071d1247b52a6f4fa1fd9c2c17947d01af59e1210c9f980bf1487bbd7"
    );
    let counting = parse_record_hash("sha256=AAECAwQFBgcICQoLDA0ODxAREhMUFRYXGBkaGxwdHh8").unwrap();
    for (i, byte) in counting.iter().enumerate() {
        assert_eq!(usize::from(*byte), i);
    }
}

#[test]
fn a_hash_that_cannot_be_read_is_none() {
    // Another algorithm.
    assert_eq!(parse_record_hash("md5=oVfM8HHRJHtSpvT6H9nCwXlH0Br1nhIQyfmAvxSHu9c"), None);
    // No digest at all.
    assert_eq!(parse_record_hash("sha256="), None);
    assert_eq!(parse_record_hash(""), None);
    // Padding.
    assert_eq!(parse_record_hash("sha256=oVfM8HHRJHtSpvT6H9nCwXlH0Br1nhIQyfmAvxSHu9c="), None);
    // The alphabet that is not safe in a URL.
    assert_eq!(parse_record_hash("sha256=oVfM8HHRJHtSpvT6H9nCwXlH0Br1nhIQyfmAvxSHu/c"), None);
    // A digest that is too short.
    assert_eq!(parse_record_hash("sha256=AAEC"), None);
    // Bits that no byte has.
    assert_eq!(parse_record_hash("sha256=oVfM8HHRJHtSpvT6H9nCwXlH0Br1nhIQyfmAvxSHu9d"), None);
}

#[test]
fn lines_that_list_nothing_are_left_out() {
    assert_eq!(parsed(""), Vec::new());
    assert_eq!(parsed("\n  \n\t\r\n"), Vec::new());
    assert_eq!(parsed(",sha256=,3\n"), Vec::new());
    assert_eq!(WheelRecord::default(), WheelRecord { entries: Vec::new() });
}

#[test]
fn a_size_is_a_decimal_number() {
    assert_eq!(parsed("a,,0")[0].size, Some(0));
    assert_eq!(parsed("a,,+7")[0].size, Some(7));
    assert_eq!(parsed("a,,18446744073709551615")[0].size, Some(u64::MAX));
    assert_eq!(parsed("a,,18446744073709551616")[0].size, None);
    assert_eq!(parsed("a,,-1")[0].size, None);
    assert_eq!(parsed("a,, 1")[0].size, None);
    assert_eq!(parsed("a,,+")[0].size, None);
    assert_eq!(parsed("a")[0].size, None);
}

#[test]
fn fields_may_be_quoted() {
    assert_eq!(split_record_line("a,b,c"), ["a", "b", "c"]);
    assert_eq!(split_record_line(""), [""]);
    assert_eq!(split_record_line("\"a,b\",c"), ["a,b", "c"]);
    assert_eq!(split_record_line("\"a\"\"b\",c"), ["a\"b", "c"]);
    assert_eq!(split_record_line("a\"b\",c"), ["a\"b\"", "c"]);
    assert_eq!(split_record_line("\"\",\"x"), ["", "x"]);
}

#[test]
fn a_record_is_read_back() {
    let text = "\"a,\"\"b\",sha256=oVfM8HHRJHtSpvT6H9nCwXlH0Br1nhIQyfmAvxSHu9c,12\r\n\
                c,,\r\n";
    let entries = parsed(text);
    assert_eq!(entries.len(), 2);
    assert_eq!(entries[0].archive_path, "a,\"b");
    assert_eq!(entries[0].size, Some(12));
    assert_eq!(
        entries[1],
        WheelRecordEntry { archive_path: "c".to_string(), sha256: None, size: None }
    );
}

#[test]
fn an_entry_knows_where_it_is_installed() {
    let entries = parsed("foo-1.0.data/scripts/foo,,\nfoo.py,,\n");
    assert_eq!(entries[0].mapped_path(), "python-scripts/foo");
    assert_eq!(entries[1].mapped_path(), "site-packages/foo.py");
}

#[test]
fn a_record_that_cannot_be_opened_is_a_failure() {
    let failure = IoError::new(IoErrorKind::NotFound, "no RECORD");
    assert_eq!(
        WheelRecord::from_extracted_directory(Err(failure.clone())),
        Err(failure)
    );
    let record = WheelRecord::from_extracted_directory(Ok("a,,\n".to_string())).unwrap();
    assert_eq!(record.entries[0].archive_path, "a");
}
