//! Paths written in a model: relative to the current directory where they
//! start with `./`, relative to the model directory otherwise, or absolute.
use vstd::prelude::*;
use crate::path::{is_absolute, joined, parent_of, path_is_absolute, path_join, path_parent, strip_cur_dir, stripped_cur_dir};

verus! {

/// Where `path`, written in a model, leads: itself where absolute; under
/// `current_dir` where it starts with `./` (`current_dir` itself under
/// `model_dir` where relative); under `model_dir` otherwise.
pub open spec fn model_path(path: Seq<char>, current_dir: Seq<char>, model_dir: Seq<char>) -> Seq<char> {
    if is_absolute(path) {
        path
    } else {
        match stripped_cur_dir(path) {
            Some(rest) => if is_absolute(current_dir) {
                joined(current_dir, rest)
            } else {
                joined(joined(model_dir, current_dir), rest)
            },
            None => joined(model_dir, path),
        }
    }
}

/// Resolves `path`, written in a model whose directory is `model_dir`,
/// relative to the directory `current_dir`; with an absolute model
/// directory the result is absolute.
pub fn resolve_model_path(path: &str, current_dir: &str, model_dir: &str) -> (r: String)
    ensures
        r@ == model_path(path@, current_dir@, model_dir@),
        is_absolute(model_dir@) ==> is_absolute(r@),
{
    if path_is_absolute(path) {
        return crate::text::to_owned_string(path);
    }
    match strip_cur_dir(path) {
        Some(rest) => {
            if path_is_absolute(current_dir) {
                path_join(current_dir, rest.as_str())
            } else {
                let base = path_join(model_dir, current_dir);
                path_join(base.as_str(), rest.as_str())
            }
        },
        None => path_join(model_dir, path),
    }
}

/// What is at the manifest's place in a directory.
#[derive(Debug, Clone, Copy, PartialEq, Eq, Structural)]
pub enum ManifestProbe {
    /// A file.
    File,
    /// Something that is not a file.
    NotFile,
    /// Nothing.
    Missing,
    /// It could not be looked at.
    Failed,
}

/// The next step of the search for the directory of a model's manifest.
#[derive(Debug, PartialEq, Eq)]
pub enum ManifestStep {
    /// The manifest is in this directory.
    Found(String),
    /// Look in this directory next.
    Next(String),
    /// There is no manifest here or above.
    NotFound,
    /// The search failed.
    Failed,
}

/// The manifest's file name.
pub open spec fn manifest_file_name() -> Seq<char> {
    "op.toml"@
}

/// Where the manifest would be in directory `dir`.
pub fn manifest_candidate(dir: &str) -> (p: String)
    ensures
        p@ == joined(dir@, manifest_file_name()),
{
    path_join(dir, "op.toml")
}

/// What the search for the manifest does after looking at `dir`: a file
/// there ends it; something else ends it without a manifest; nothing there
/// moves it to the parent directory, or ends it at the top; a failure to look
/// ends it with the failure.
pub fn manifest_step(dir: &str, probe: ManifestProbe) -> (s: ManifestStep)
    ensures
        match probe {
            ManifestProbe::File => s matches ManifestStep::Found(d) && d@ == dir@,
            ManifestProbe::NotFile => s is NotFound,
            ManifestProbe::Missing => match parent_of(dir@) {
                Some(q) => s matches ManifestStep::Next(d) && d@ == q,
                None => s is NotFound,
            },
            ManifestProbe::Failed => s is Failed,
        },
{
    match probe {
        ManifestProbe::File => ManifestStep::Found(crate::text::to_owned_string(dir)),
        ManifestProbe::NotFile => ManifestStep::NotFound,
        ManifestProbe::Missing => match path_parent(dir) {
            Some(q) => ManifestStep::Next(q),
            None => ManifestStep::NotFound,
        },
        ManifestProbe::Failed => ManifestStep::Failed,
    }
}

/// The function a model's expressions call to load a file: it resolves the
/// file's path against the model directory and the current directory.
#[derive(Debug)]
pub struct LoadFileFunc {
    model_dir: String,
    current_dir: String,
}

impl LoadFileFunc {
    /// The function for a model in `model_dir`, evaluated in `current_dir`.
    pub fn new(model_dir: String, current_dir: String) -> (f: LoadFileFunc)
        ensures
            f.model_dir_v() == model_dir@,
            f.current_dir_v() == current_dir@,
    {
        LoadFileFunc { model_dir, current_dir }
    }

    /// The model directory, as a value.
    pub closed spec fn model_dir_v(&self) -> Seq<char> {
        self.model_dir@
    }

    /// The current directory, as a value.
    pub closed spec fn current_dir_v(&self) -> Seq<char> {
        self.current_dir@
    }

    /// Where a path the function is called with leads.
    pub fn resolve_path(&self, path: &str) -> (r: String)
        ensures
            r@ == model_path(path@, self.current_dir_v(), self.model_dir_v()),
            is_absolute(self.model_dir_v()) ==> is_absolute(r@),
    {
        resolve_model_path(path, self.current_dir.as_str(), self.model_dir.as_str())
    }
}

} // verus!
