use std::time::Instant;

use opereon::outlog::{EntryKind, Output};

#[test]
fn rendered_log_marks_each_entry() {
    let now = Instant::now();
    let mut log = Output::new();
    log.log_entry_text(EntryKind::Command, now, "echo 'test'");
    log.log_entry(EntryKind::Out, now, b"test");
    log.log_entry(EntryKind::Stderr, now, b"unknown error");
    log.log_status(Some(0), now);
    log.log_status(None, now);
    log.log_status(Some(-2), now);
    log.log_entry(EntryKind::In, now, b"input");
    assert_eq!(log.len(), 7);
    assert_eq!(
        log.render(),
        "$ echo 'test'\n1 test\n2 unknown error\n= 0\n= ?\n= -2\n< input\n"
    );
}

#[test]
fn entries_keep_their_bytes() {
    let now = Instant::now();
    let mut log = Output::new();
    log.log_entry(EntryKind::Out, now, b"ab");
    log.log_entry(EntryKind::Out, now, b"");
    log.log_entry(EntryKind::Stderr, now, b"cde");
    assert_eq!(log.entry_data(0), b"ab");
    assert_eq!(log.entry_data(1), b"");
    assert_eq!(log.entry_data(2), b"cde");
    assert_eq!(log.entry(2).kind(), EntryKind::Stderr);
    assert_eq!(log.entry(0).timestamp(), now);
}

#[test]
fn invalid_utf8_is_replaced_in_the_rendering() {
    let now = Instant::now();
    let mut log = Output::new();
    log.log_entry(EntryKind::Out, now, &[0x61, 0xff, 0x62]);
    assert_eq!(log.render(), "1 a\u{fffd}b\n");
}

#[test]
fn kind_marks_and_bits() {
    let kinds = [EntryKind::Out, EntryKind::Stderr, EntryKind::In, EntryKind::Status, EntryKind::Command];
    let bits: Vec<u8> = kinds.iter().map(|k| k.mask_bit()).collect();
    assert_eq!(bits, vec![0x01, 0x02, 0x04, 0x08, 0x10]);
    let marks: String = kinds.iter().map(|k| k.to_string()).collect();
    assert_eq!(marks, "12<=$");
    assert_eq!(EntryKind::Status.mark(), '=');
}

#[test]
fn display_outlog() {
    let now = Instant::now();
    let mut log = Output::new();
    log.log_entry_text(EntryKind::Command, now, "echo 'test'");
    log.log_entry(EntryKind::Out, now, b"test");
    log.log_entry(EntryKind::Stderr, now, b"unknown error");
    log.log_status(Some(0), now);
    log.log_status(None, now);
    let text = log.render();
    println!("{}", text);
    assert_eq!(text, "$ echo 'test'\n1 test\n2 unknown error\n= 0\n= ?\n");
}
