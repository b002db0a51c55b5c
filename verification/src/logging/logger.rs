//! The application's own log: records of a message, a level and a verbosity
//! handed to whatever logger is installed.
use vstd::prelude::*;
use crate::text::to_owned_string;

verus! {

/// How severe a record is.
#[derive(Debug, Clone, Copy, PartialEq, Eq, Structural, Hash)]
pub enum Level {
    Info,
    Warn,
    Error,
}

impl Level {
    /// The level's name.
    pub fn to_string(&self) -> (s: String)
        ensures
            s@ == match *self {
                Level::Info => "Info"@,
                Level::Warn => "Warn"@,
                Level::Error => "Error"@,
            },
    {
        match self {
            Level::Info => to_owned_string("Info"),
            Level::Warn => to_owned_string("Warn"),
            Level::Error => to_owned_string("Error"),
        }
    }
}

/// A logged record: the message, its level and verbosity.
#[derive(Debug)]
pub struct Record {
    msg: String,
    level: Level,
    verbosity: usize,
}

impl Record {
    /// The record of `msg` at `level` and `verbosity`.
    pub fn new(msg: String, level: Level, verbosity: usize) -> (r: Record)
        ensures
            r.msg_v() == msg@,
            r.level() == level,
            r.verbosity() == verbosity,
    {
        Record { msg, level, verbosity }
    }

    /// The message, as a value.
    pub closed spec fn msg_v(&self) -> Seq<char> {
        self.msg@
    }

    /// The level, as a value.
    pub closed spec fn level_spec(&self) -> Level {
        self.level
    }

    /// The verbosity, as a value.
    pub closed spec fn verbosity_spec(&self) -> usize {
        self.verbosity
    }

    /// The message.
    pub fn msg(&self) -> (s: &str)
        ensures
            s@ == self.msg_v(),
    {
        self.msg.as_str()
    }

    /// The level.
    #[verifier::when_used_as_spec(level_spec)]
    pub fn level(&self) -> (l: Level)
        ensures
            l == self.level_spec(),
    {
        self.level
    }

    /// The verbosity.
    #[verifier::when_used_as_spec(verbosity_spec)]
    pub fn verbosity(&self) -> (v: usize)
        ensures
            v == self.verbosity_spec(),
    {
        self.verbosity
    }
}

/// What records are handed to.
pub trait Logger {
    /// Takes a record.
    fn log(&mut self, record: &Record);
}

/// The logger that drops every record.
#[derive(Debug)]
pub struct DiscardLogger;

impl Logger for DiscardLogger {
    fn log(&mut self, record: &Record) {
    }
}

} // verus!
