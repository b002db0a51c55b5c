//! Building and describing commands run locally or over ssh.
pub mod builder;
pub mod env;
pub mod local;
pub mod lru;
pub mod script;
pub mod ssh;

use vstd::prelude::*;

verus! {

/// `std::io::Error`, carried as the cause of spawn errors.
#[verifier::external_type_specification]
#[verifier::external_body]
pub struct ExIoError(std::io::Error);

/// The kinds of error in running a command.
#[derive(Debug, Clone, Copy, PartialEq, Eq, Structural)]
pub enum CommandErrorDetail {
    /// The command could not be spawned.
    CommandSpawn,
    /// The command's output could not be read.
    MalformedOutput,
}

/// An error in running a command, with the I/O error that caused it, if any.
#[derive(Debug)]
pub struct CommandError {
    pub detail: CommandErrorDetail,
    pub cause: Option<std::io::Error>,
}

impl CommandErrorDetail {
    /// The error for a command that could not be spawned, caused by `err`.
    pub fn spawn_err(err: std::io::Error) -> (e: CommandError)
        ensures
            e.detail == CommandErrorDetail::CommandSpawn,
            e.cause == Some(err),
    {
        CommandError { detail: CommandErrorDetail::CommandSpawn, cause: Some(err) }
    }
}

/// The exit code and collected output of a finished command.
#[derive(Debug, Clone, PartialEq, Eq)]
pub struct CommandOutput {
    code: Option<i32>,
    stdout: String,
    stderr: String,
}

impl CommandOutput {
    /// The output with the given exit code and texts.
    pub fn new(code: Option<i32>, stdout: String, stderr: String) -> (o: CommandOutput)
        ensures
            o.code_view() == code,
            o.stdout_view() == stdout@,
            o.stderr_view() == stderr@,
    {
        CommandOutput { code, stdout, stderr }
    }

    /// The exit code; none when a signal ended the command.
    pub closed spec fn code_view(&self) -> Option<i32> {
        self.code
    }

    /// The standard output.
    pub closed spec fn stdout_view(&self) -> Seq<char> {
        self.stdout@
    }

    /// The standard error.
    pub closed spec fn stderr_view(&self) -> Seq<char> {
        self.stderr@
    }

    /// The exit code; none when a signal ended the command.
    pub fn code(&self) -> (c: Option<i32>)
        ensures
            c == self.code_view(),
    {
        self.code
    }

    /// The standard output.
    pub fn stdout(&self) -> (s: &str)
        ensures
            s@ == self.stdout_view(),
    {
        self.stdout.as_str()
    }

    /// The standard error.
    pub fn stderr(&self) -> (s: &str)
        ensures
            s@ == self.stderr_view(),
    {
        self.stderr.as_str()
    }
}

/// A script given by the path of its file or by its source text.
#[derive(Debug, Clone, Copy)]
pub enum SourceRef<'a> {
    Path(&'a str),
    Source(&'a str),
}

/// An owned script: the path of its file or its source text.
pub enum Source {
    Path(String),
    Source(String),
}

impl<'a> SourceRef<'a> {
    /// The script's text: for a path, what `load` reads from that file (its
    /// error included); for source text, the text itself.
    pub fn read<E, F: FnOnce(&str) -> Result<String, E>>(&self, load: F) -> (r: Result<String, E>)
        requires
            match *self {
                SourceRef::Path(p) => call_requires(load, (p,)),
                SourceRef::Source(_) => true,
            },
        ensures
            match *self {
                SourceRef::Path(p) => call_ensures(load, (p,), r),
                SourceRef::Source(src) => r matches Ok(t) && t@ == src@,
            },
    {
        match *self {
            SourceRef::Path(path) => load(path),
            SourceRef::Source(src) => Ok(crate::text::to_owned_string(src)),
        }
    }

    /// Appends the script's text to `buf`: for a path, what `load` reads from
    /// that file, and nothing when it fails; for source text, the text itself.
    pub fn read_to<E, F: FnOnce(&str) -> Result<String, E>>(&self, buf: &mut String, load: F) -> (r: Result<(), E>)
        requires
            match *self {
                SourceRef::Path(p) => call_requires(load, (p,)),
                SourceRef::Source(_) => true,
            },
        ensures
            match *self {
                SourceRef::Path(p) => exists|loaded: Result<String, E>| {
                    &&& #[trigger] call_ensures(load, (p,), loaded)
                    &&& match loaded {
                        Ok(t) => r is Ok && final(buf)@ == old(buf)@ + t@,
                        Err(e) => r == Err::<(), E>(e) && final(buf)@ == old(buf)@,
                    }
                },
                SourceRef::Source(src) => r is Ok && final(buf)@ == old(buf)@ + src@,
            },
    {
        match *self {
            SourceRef::Path(path) => {
                let loaded = load(path);
                match loaded {
                    Ok(t) => {
                        crate::text::push_str(buf, t.as_str());
                        Ok(())
                    },
                    Err(e) => Err(e),
                }
            },
            SourceRef::Source(src) => {
                crate::text::push_str(buf, src);
                Ok(())
            },
        }
    }

    /// The owned script with the same path or text.
    pub fn to_owned(&self) -> (s: Source)
        ensures
            match (*self, s) {
                (SourceRef::Path(p), Source::Path(q)) => p@ == q@,
                (SourceRef::Source(p), Source::Source(q)) => p@ == q@,
                _ => false,
            },
    {
        match self {
            SourceRef::Path(p) => Source::Path(crate::text::to_owned_string(p)),
            SourceRef::Source(src) => Source::Source(crate::text::to_owned_string(src)),
        }
    }
}

impl Source {
    /// The borrowed script with the same path or text.
    pub fn as_ref(&self) -> (s: SourceRef<'_>)
        ensures
            match (*self, s) {
                (Source::Path(p), SourceRef::Path(q)) => p@ == q@,
                (Source::Source(p), SourceRef::Source(q)) => p@ == q@,
                _ => false,
            },
    {
        match self {
            Source::Path(p) => SourceRef::Path(p.as_str()),
            Source::Source(src) => SourceRef::Source(src.as_str()),
        }
    }
}

} // verus!
