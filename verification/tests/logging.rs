use opereon::logging::logger::{DiscardLogger, Level as RecordLevel, Logger, Record};
use opereon::logging::{FileEvent, FileSpan, Level, LogConfig, TermLayer, TraceLevel};

#[test]
fn level_names_and_ranks() {
    let all = [Level::Trace, Level::Debug, Level::Info, Level::Warn, Level::Error, Level::Critical];
    let names: Vec<String> = all.iter().map(|l| l.to_string()).collect();
    assert_eq!(names, vec!["Trace", "Debug", "Info", "Warn", "Error", "Critical"]);
    let ranks: Vec<u8> = all.iter().map(|l| l.rank()).collect();
    assert_eq!(ranks, vec![0, 1, 2, 3, 4, 5]);
    assert_eq!(Level::Critical.trace_level(), TraceLevel::Error);
    assert_eq!(Level::Warn.trace_level(), TraceLevel::Warn);
    assert_eq!(Level::Trace.trace_level(), TraceLevel::Trace);
}

#[test]
fn default_log_config() {
    let c = LogConfig::new();
    assert_eq!(c.level(), Level::Info);
    assert_eq!(c.log_path(), "/var/log/opereon/opereon.log");
    let d = LogConfig::with_values(Level::Debug, "/tmp/x.log".to_string());
    assert_eq!(d.level(), Level::Debug);
    assert_eq!(d.log_path(), "/tmp/x.log");
}

#[test]
fn terminal_shows_events_up_to_the_verbosity() {
    let t = TermLayer::new(2);
    assert_eq!(t.verbosity(), 2);
    assert!(t.shows(Some(0)));
    assert!(t.shows(Some(2)));
    assert!(!t.shows(Some(3)));
    assert!(!t.shows(None));
    assert_eq!(TermLayer::signed_verb(5), 5);
    assert_eq!(TermLayer::signed_verb(-1), u64::MAX);
    assert_eq!(TermLayer::signed_verb(i64::MIN), 1u64 << 63);
    assert!(!t.shows(Some(TermLayer::signed_verb(-1))));
}

#[test]
fn file_event_takes_the_last_message() {
    let e = FileEvent::new(vec![
        ("message".to_string(), "first".to_string()),
        ("host".to_string(), "h1".to_string()),
        ("message".to_string(), "second".to_string()),
        ("verb".to_string(), "2".to_string()),
    ]);
    assert_eq!(e.message.as_deref(), Some("second"));
    assert_eq!(
        e.kvs,
        vec![("host".to_string(), "h1".to_string()), ("verb".to_string(), "2".to_string())]
    );
    let none = FileEvent::new(vec![("a".to_string(), "b".to_string())]);
    assert!(none.message.is_none());
    let s = FileSpan::from_attrs(vec![("k".to_string(), "v".to_string())]);
    assert_eq!(s.kvs, vec![("k".to_string(), "v".to_string())]);
}

#[test]
fn records_keep_their_fields() {
    let r = Record::new("hello".to_string(), RecordLevel::Warn, 3);
    assert_eq!(r.msg(), "hello");
    assert_eq!(r.level(), RecordLevel::Warn);
    assert_eq!(r.verbosity(), 3);
    assert_eq!(RecordLevel::Error.to_string(), "Error");
    let mut l = DiscardLogger;
    l.log(&r);
}

struct TestLogger {
    records: Vec<(String, RecordLevel, usize)>,
}

impl Logger for TestLogger {
    fn log(&mut self, record: &Record) {
        self.records.push((record.msg().to_string(), record.level(), record.verbosity()));
    }
}

#[test]
fn records_reach_the_logger() {
    let mut logger = TestLogger { records: vec![] };
    logger.log(&Record::new(format!("formatting {}", "some value"), RecordLevel::Info, 0));
    logger.log(&Record::new(format!("formatting {named_value}", named_value = "val"), RecordLevel::Warn, 1));
    logger.log(&Record::new(format!("formatting {} {}", "some value", "another value"), RecordLevel::Error, 2));
    assert_eq!(
        logger.records,
        vec![
            ("formatting some value".to_string(), RecordLevel::Info, 0),
            ("formatting val".to_string(), RecordLevel::Warn, 1),
            ("formatting some value another value".to_string(), RecordLevel::Error, 2),
        ]
    );
}
