//! The configuration model: its tree of values, the definitions read from it
//! (hosts, users, procedures, tasks), its configuration files, metadata and
//! the selection of changes that updaters react to.
pub mod node;
pub mod defs;
pub mod paths;
pub mod metadata;
pub mod update;
pub mod config;
pub mod manifest;

use vstd::prelude::*;
use crate::model::metadata::Metadata;

verus! {

/// What can go wrong with a model.
#[derive(Debug)]
pub enum ModelErrorDetail {
    ConfigRead,
    ConfigParse { path: String },
    ManifestRead { path: String },
    ManifestParse { path: String },
    ManifestResolve { path: String },
    IncludesResolve,
    OverridesResolve,
    DefsParse,
    InterpolationsResolve,
    Expr,
    ModelDiff,
}

/// Which version of a model: the working directory, or a revision of its
/// repository.
#[derive(Debug, PartialEq, Eq)]
pub enum ModelPath {
    /// The working directory.
    Current,
    /// A revision, as git reads revision strings.
    Revision(String),
}

/// What keeps the versions of a model's files.
pub trait FileVersionManager {
    /// Prepares `path` to keep versions.
    fn init(&mut self, path: &str) -> Result<(), String>;

    /// Brings the version `model_path` of the model at `path` out.
    fn checkout(&mut self, path: &str, model_path: ModelPath) -> Result<Metadata, String>;

    /// Keeps the present state of the model at `path` as a new version.
    fn commit(&mut self, path: &str, message: &str) -> Result<Metadata, String>;

    /// The content of the file at `path` in the present state of the
    /// manager, or the message saying why it cannot be read.
    spec fn file_content(&self, path: Seq<char>) -> Result<Seq<u8>, Seq<char>>;

    /// Appends the content of the file at `path` to `buffer`.
    fn read_file_into(&mut self, path: &str, buffer: &mut Vec<u8>) -> (r: Result<(), String>)
        ensures
            match r {
                Ok(()) => old(self).file_content(path@) matches Ok(c) && final(buffer)@ == old(buffer)@ + c,
                Err(e) => old(self).file_content(path@) == Err::<Seq<u8>, Seq<char>>(e@),
            };

    /// The content of the file at `path`.
    fn read_file(&mut self, path: &str) -> (r: Result<Vec<u8>, String>)
        ensures
            match r {
                Ok(v) => old(self).file_content(path@) == Ok::<Seq<u8>, Seq<char>>(v@),
                Err(e) => old(self).file_content(path@) == Err::<Seq<u8>, Seq<char>>(e@),
            },
    {
        let mut buff: Vec<u8> = Vec::new();
        match self.read_file_into(path, &mut buff) {
            Ok(()) => {
                assert(Seq::<u8>::empty() + buff@ =~= buff@);
                Ok(buff)
            },
            Err(e) => Err(e),
        }
    }
}

} // verus!
