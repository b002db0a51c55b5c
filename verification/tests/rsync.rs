use opereon::rsync::{
    parse_u64, remove_commas, split_fields, take_line_part, ProgressParser, RsyncConfig, RsyncParseError,
};

#[test]
fn default_rsync_command() {
    assert_eq!(RsyncConfig::new().rsync_cmd(), "/bin/rsync");
    assert_eq!(RsyncConfig::with_cmd("/usr/bin/rsync".to_string()).rsync_cmd(), "/usr/bin/rsync");
}

#[test]
fn fields_split_on_separators() {
    assert_eq!(split_fields("  1,024  50%   1.00MB/s    0:00:01", false), vec!["1,024", "50%", "1.00MB/s", "0:00:01"]);
    assert_eq!(split_fields("[dir/file.txt][2048]", true), vec!["dir/file.txt", "2048"]);
    assert!(split_fields("", false).is_empty());
    assert!(split_fields("   ", false).is_empty());
}

#[test]
fn numbers_and_commas() {
    assert_eq!(remove_commas("1,234,567"), "1234567");
    assert_eq!(parse_u64("1234567"), Some(1234567));
    assert_eq!(parse_u64("18446744073709551615"), Some(u64::MAX));
    assert_eq!(parse_u64("18446744073709551616"), None);
    assert_eq!(parse_u64(""), None);
    assert_eq!(parse_u64("12a"), None);
    assert_eq!(parse_u64("-1"), None);
}

#[test]
fn progress_of_a_copy() {
    let mut p = ProgressParser::new();
    assert!(p.parse_line("sending incremental file list\n").unwrap().is_none());
    assert!(p.parse_line("[dir/][4096]\n").unwrap().is_none());
    assert_eq!(p.file_name(), "dir/");
    assert!(p.parse_line("[dir/a.txt][2,048]\n").is_err());
    let mut p = ProgressParser::new();
    p.parse_line("header\n").unwrap();
    assert!(p.parse_line("[dir/a.txt][2048]\n").unwrap().is_none());
    assert_eq!(p.file_name(), "dir/a.txt");
    let step = p.parse_line("          1,024  50%    1.00MB/s    0:00:01\r").unwrap().unwrap();
    assert_eq!(step.file_name, "dir/a.txt");
    assert_eq!(step.loaded_bytes, 1024);
    assert!(!step.is_completed);
    let done = p
        .parse_line("          2,048 100%    2.00MB/s    0:00:01 (xfr#1, to-chk=0/2)\n")
        .unwrap()
        .unwrap();
    assert_eq!(done.loaded_bytes, 2048);
    assert!(done.is_completed);
    assert!(p.parse_line("\n").unwrap().is_none());
    assert!(p.parse_line("").unwrap().is_none());
}

#[test]
fn progress_errors() {
    let mut p = ProgressParser::new();
    p.parse_line("header\n").unwrap();
    assert_eq!(p.parse_line("[a][b][c]\n").unwrap_err(), RsyncParseError::FileFields);
    assert_eq!(p.parse_line("[a][x]\n").unwrap_err(), RsyncParseError::FileSize);
    p.parse_line("[a][10]\n").unwrap();
    assert_eq!(p.parse_line("1 2 3\n").unwrap_err(), RsyncParseError::ProgressFields);
    assert_eq!(p.parse_line("x 50% 1MB/s 0:00:01\n").unwrap_err(), RsyncParseError::ProgressBytes);
}

#[test]
fn chunks_end_at_the_first_line_end() {
    assert_eq!(take_line_part(b"abc\ndef"), (true, 4));
    assert_eq!(take_line_part(b"abc\rdef\n"), (true, 4));
    assert_eq!(take_line_part(b"abc"), (false, 3));
    assert_eq!(take_line_part(b""), (false, 0));
}
