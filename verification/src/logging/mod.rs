//! Logging: levels, the configuration of the log file, which events the
//! terminal shows for a verbosity, and the fields events and spans carry
//! into the log file.
pub mod logger;

use vstd::prelude::*;
use crate::text::{str_equal, to_owned_string};

verus! {

/// How severe a logged event is.
#[derive(Debug, Clone, Copy, PartialEq, Eq, Structural, Hash)]
pub enum Level {
    Trace,
    Debug,
    Info,
    Warn,
    Error,
    Critical,
}

/// The name of a level.
pub open spec fn level_name(l: Level) -> Seq<char> {
    match l {
        Level::Trace => "Trace"@,
        Level::Debug => "Debug"@,
        Level::Info => "Info"@,
        Level::Warn => "Warn"@,
        Level::Error => "Error"@,
        Level::Critical => "Critical"@,
    }
}

/// The level a tracing subscriber filters by: every level but `Critical`
/// maps to its namesake, `Critical` to `Error`.
#[derive(Debug, Clone, Copy, PartialEq, Eq, Structural)]
pub enum TraceLevel {
    Trace,
    Debug,
    Info,
    Warn,
    Error,
}

impl Level {
    /// The level's name.
    pub fn to_string(&self) -> (s: String)
        ensures
            s@ == level_name(*self),
    {
        match self {
            Level::Trace => to_owned_string("Trace"),
            Level::Debug => to_owned_string("Debug"),
            Level::Info => to_owned_string("Info"),
            Level::Warn => to_owned_string("Warn"),
            Level::Error => to_owned_string("Error"),
            Level::Critical => to_owned_string("Critical"),
        }
    }

    /// The level's rank: `Trace` lowest, `Critical` highest.
    pub fn rank(&self) -> (r: u8)
        ensures
            r == match *self {
                Level::Trace => 0u8,
                Level::Debug => 1u8,
                Level::Info => 2u8,
                Level::Warn => 3u8,
                Level::Error => 4u8,
                Level::Critical => 5u8,
            },
    {
        match self {
            Level::Trace => 0,
            Level::Debug => 1,
            Level::Info => 2,
            Level::Warn => 3,
            Level::Error => 4,
            Level::Critical => 5,
        }
    }

    /// The level a tracing subscriber filters by.
    pub fn trace_level(&self) -> (t: TraceLevel)
        ensures
            t == match *self {
                Level::Trace => TraceLevel::Trace,
                Level::Debug => TraceLevel::Debug,
                Level::Info => TraceLevel::Info,
                Level::Warn => TraceLevel::Warn,
                Level::Error => TraceLevel::Error,
                Level::Critical => TraceLevel::Error,
            },
    {
        match self {
            Level::Trace => TraceLevel::Trace,
            Level::Debug => TraceLevel::Debug,
            Level::Info => TraceLevel::Info,
            Level::Warn => TraceLevel::Warn,
            Level::Error => TraceLevel::Error,
            Level::Critical => TraceLevel::Error,
        }
    }
}

/// Where and from which level events are logged to a file.
#[derive(Debug)]
pub struct LogConfig {
    level: Level,
    log_path: String,
}

impl LogConfig {
    /// The default: from `Info` on, to `/var/log/opereon/opereon.log`.
    pub fn new() -> (c: LogConfig)
        ensures
            c.level_v() == Level::Info,
            c.log_path_v() == "/var/log/opereon/opereon.log"@,
    {
        LogConfig { level: Level::Info, log_path: to_owned_string("/var/log/opereon/opereon.log") }
    }

    /// The configuration logging from `level` on to `log_path`.
    pub fn with_values(level: Level, log_path: String) -> (c: LogConfig)
        ensures
            c.level_v() == level,
            c.log_path_v() == log_path@,
    {
        LogConfig { level, log_path }
    }

    /// The level, as a value.
    pub closed spec fn level_v(&self) -> Level {
        self.level
    }

    /// The path, as a value.
    pub closed spec fn log_path_v(&self) -> Seq<char> {
        self.log_path@
    }

    /// The lowest level logged.
    pub fn level(&self) -> (l: Level)
        ensures
            l == self.level_v(),
    {
        self.level
    }

    /// The log file.
    pub fn log_path(&self) -> (p: &str)
        ensures
            p@ == self.log_path_v(),
    {
        self.log_path.as_str()
    }
}

/// Which events the terminal shows: those carrying a `verb` field no
/// greater than the verbosity asked for.
#[derive(Debug, Clone, Copy)]
pub struct TermLayer {
    verbosity: u8,
}

/// The verbosity an event's `verb` field gives: a signed value is read as
/// its two's complement bits.
pub open spec fn verb_of_signed(v: i64) -> u64 {
    if v >= 0 { v as u64 } else { (v + 18446744073709551616) as u64 }
}

impl TermLayer {
    /// The filter for verbosity `verbosity`.
    pub fn new(verbosity: u8) -> (t: TermLayer)
        ensures
            t.verbosity() == verbosity,
    {
        TermLayer { verbosity }
    }

    /// The verbosity asked for.
    #[verifier::when_used_as_spec(verbosity_spec)]
    pub fn verbosity(&self) -> (v: u8)
        ensures
            v == self.verbosity_spec(),
    {
        self.verbosity
    }

    /// The verbosity asked for, as a value.
    pub closed spec fn verbosity_spec(&self) -> u8 {
        self.verbosity
    }

    /// Whether an event with verbosity `verb` (none where it carries no
    /// `verb` field) is shown.
    pub fn shows(&self, verb: Option<u64>) -> (b: bool)
        ensures
            b == (verb matches Some(v) && v <= self.verbosity_spec()),
    {
        match verb {
            Some(v) => v <= self.verbosity as u64,
            None => false,
        }
    }

    /// The verbosity a signed `verb` field gives.
    pub fn signed_verb(v: i64) -> (r: u64)
        ensures
            r == verb_of_signed(v),
    {
        if v >= 0 {
            v as u64
        } else {
            let m: u64 = (-(v + 1)) as u64;
            u64::MAX - m
        }
    }
}

/// The fields of a span, each a name and its value's text, in order.
#[derive(Debug)]
pub struct FileSpan {
    pub kvs: Vec<(String, String)>,
}

impl FileSpan {
    /// The span carrying the fields `attrs`, in order.
    pub fn from_attrs(attrs: Vec<(String, String)>) -> (s: FileSpan)
        ensures
            s.kvs == attrs,
    {
        FileSpan { kvs: attrs }
    }
}

/// The fields of an event: its `message`, and the others in order.
#[derive(Debug)]
pub struct FileEvent {
    pub kvs: Vec<(String, String)>,
    pub message: Option<String>,
}

/// The message of an event with fields `fields`: the last `message` field.
pub open spec fn message_of(fields: Seq<(Seq<char>, Seq<char>)>) -> Option<Seq<char>>
    decreases fields.len(),
{
    if fields.len() == 0 {
        None
    } else if fields.last().0 == "message"@ {
        Some(fields.last().1)
    } else {
        message_of(fields.drop_last())
    }
}

/// The other fields of an event.
pub open spec fn other_fields(fields: Seq<(Seq<char>, Seq<char>)>) -> Seq<(Seq<char>, Seq<char>)> {
    fields.filter(|f: (Seq<char>, Seq<char>)| f.0 != "message"@)
}

impl FileEvent {
    /// The event carrying the fields `fields`, in order.
    pub fn new(fields: Vec<(String, String)>) -> (e: FileEvent)
        ensures
            Seq::new(e.kvs@.len(), |i: int| (e.kvs@[i].0@, e.kvs@[i].1@)) == other_fields(
                Seq::new(fields@.len(), |i: int| (fields@[i].0@, fields@[i].1@)),
            ),
            match e.message {
                Some(m) => message_of(Seq::new(fields@.len(), |i: int| (fields@[i].0@, fields@[i].1@))) == Some(m@),
                None => message_of(Seq::new(fields@.len(), |i: int| (fields@[i].0@, fields@[i].1@))) is None,
            },
    {
        let ghost fv = Seq::new(fields@.len(), |i: int| (fields@[i].0@, fields@[i].1@));
        let mut e = FileEvent { kvs: Vec::new(), message: None };
        let mut i: usize = 0;
        while i < fields.len()
            invariant
                i <= fields@.len(),
                fv == Seq::new(fields@.len(), |i: int| (fields@[i].0@, fields@[i].1@)),
                Seq::new(e.kvs@.len(), |k: int| (e.kvs@[k].0@, e.kvs@[k].1@)) == other_fields(fv.take(i as int)),
                match e.message {
                    Some(m) => message_of(fv.take(i as int)) == Some(m@),
                    None => message_of(fv.take(i as int)) is None,
                },
            decreases fields@.len() - i,
        {
            proof {
                reveal_strlit("message");
                assert(fv.take(i + 1).drop_last() =~= fv.take(i as int));
                assert(fv.take(i + 1) =~= fv.take(i as int).push(fv[i as int]));
                fv.take(i as int).lemma_filter_push(fv[i as int], |f: (Seq<char>, Seq<char>)| f.0 != "message"@);
            }
            let name = fields[i].0.clone();
            let value = fields[i].1.clone();
            if str_equal(name.as_str(), "message") {
                e.message = Some(value);
            } else {
                let ghost before = e.kvs@;
                e.kvs.push((name, value));
                assert(Seq::new(e.kvs@.len(), |k: int| (e.kvs@[k].0@, e.kvs@[k].1@)) =~= Seq::new(
                    before.len(),
                    |k: int| (before[k].0@, before[k].1@),
                ).push(fv[i as int]));
            }
            i = i + 1;
        }
        assert(fv.take(fields@.len() as int) =~= fv);
        e
    }
}

} // verus!
