//! A model's configuration files: which files of the model directory are
//! read into the model (includes), which are not (excludes), and overrides;
//! each directory's configuration builds on those of the directories above.
use vstd::prelude::*;
use crate::command::env::env_insert;
use crate::model::defs::Opath;
use crate::model::defs::watch::glob_len_ok;
use crate::path::{file_name_of, joined, path_file_name, path_join, path_has_prefix, path_after_prefix, path_starts_with, path_strip_prefix};
use crate::text::{str_equal, to_owned_string};

verus! {

/// The type of a file system entry.
#[derive(Debug, Clone, Copy, PartialEq, Eq, Structural)]
pub enum FileType {
    File,
    Dir,
    Link,
}

/// Whether an entry of type `ft` is one a rule restricted to `restrict` applies to.
pub open spec fn type_matches(restrict: Option<FileType>, ft: FileType) -> bool {
    match restrict {
        None => true,
        Some(t) => t == ft,
    }
}

/// Which files are read, and how: a glob of paths, the type of entry, the
/// expression giving the item read, and the expression that puts it into
/// the model.
#[derive(Debug)]
pub struct Include {
    path: String,
    file_type: Option<FileType>,
    item: Opath,
    mapping: Opath,
}

/// An include, as mathematics sees it.
pub struct IncludeV {
    pub path: Seq<char>,
    pub file_type: Option<FileType>,
    pub item: Seq<char>,
    pub mapping: Seq<char>,
}

impl View for Include {
    type V = IncludeV;

    closed spec fn view(&self) -> IncludeV {
        IncludeV { path: self.path@, file_type: self.file_type, item: self.item@, mapping: self.mapping@ }
    }
}

impl Include {
    /// The include of the entries of type `file_type` (any where none) whose
    /// paths `path` matches.
    pub fn new(path: &str, file_type: Option<FileType>, item: &str, mapping: &str) -> (i: Include)
        ensures
            i@ == (IncludeV { path: path@, file_type, item: item@, mapping: mapping@ }),
    {
        Include { path: to_owned_string(path), file_type, item: Opath::new(item), mapping: Opath::new(mapping) }
    }

    /// The glob of paths.
    pub fn path(&self) -> (p: &str)
        ensures
            p@ == self@.path,
    {
        self.path.as_str()
    }

    /// The type of entry, if restricted.
    pub fn file_type(&self) -> (t: Option<FileType>)
        ensures
            t == self@.file_type,
    {
        self.file_type
    }

    /// The expression giving the item read.
    pub fn item(&self) -> (o: &Opath)
        ensures
            o@ == self@.item,
    {
        &self.item
    }

    /// The expression putting the item into the model.
    pub fn mapping(&self) -> (o: &Opath)
        ensures
            o@ == self@.mapping,
    {
        &self.mapping
    }

    /// Whether the include applies to entries of type `file_type`.
    pub fn matches_file_type(&self, file_type: FileType) -> (b: bool)
        ensures
            b == type_matches(self@.file_type, file_type),
    {
        match self.file_type {
            None => true,
            Some(t) => t == file_type,
        }
    }

    /// A copy whose glob is under the directory `base`.
    pub fn with_base_path(&self, base: &str) -> (i: Include)
        ensures
            i@ == (IncludeV { path: joined(base@, self@.path), ..self@ }),
    {
        Include {
            path: path_join(base, self.path.as_str()),
            file_type: self.file_type,
            item: self.item.duplicate(),
            mapping: self.mapping.duplicate(),
        }
    }
}

/// Which files are not read: a glob of paths and the type of entry.
#[derive(Debug)]
pub struct Exclude {
    path: String,
    file_type: Option<FileType>,
}

/// An exclude, as mathematics sees it.
pub struct ExcludeV {
    pub path: Seq<char>,
    pub file_type: Option<FileType>,
}

impl View for Exclude {
    type V = ExcludeV;

    closed spec fn view(&self) -> ExcludeV {
        ExcludeV { path: self.path@, file_type: self.file_type }
    }
}

impl Exclude {
    /// The exclude of the entries of type `file_type` (any where none) whose
    /// paths `path` matches.
    pub fn new(path: &str, file_type: Option<FileType>) -> (e: Exclude)
        ensures
            e@ == (ExcludeV { path: path@, file_type }),
    {
        Exclude { path: to_owned_string(path), file_type }
    }

    /// The glob of paths.
    pub fn path(&self) -> (p: &str)
        ensures
            p@ == self@.path,
    {
        self.path.as_str()
    }

    /// The type of entry, if restricted.
    pub fn file_type(&self) -> (t: Option<FileType>)
        ensures
            t == self@.file_type,
    {
        self.file_type
    }

    /// Whether the exclude applies to entries of type `file_type`.
    pub fn matches_file_type(&self, file_type: FileType) -> (b: bool)
        ensures
            b == type_matches(self@.file_type, file_type),
    {
        match self.file_type {
            None => true,
            Some(t) => t == file_type,
        }
    }

    /// A copy whose glob is under the directory `base`.
    pub fn with_base_path(&self, base: &str) -> (e: Exclude)
        ensures
            e@ == (ExcludeV { path: joined(base@, self@.path), ..self@ }),
    {
        Exclude { path: path_join(base, self.path.as_str()), file_type: self.file_type }
    }
}

/// Whether `globset` builds a glob set from the glob `GlobBuilder` makes of
/// `pattern`, case-sensitive and with `*` not crossing `/`.
pub uninterp spec fn glob_sep_accepts(pattern: Seq<char>) -> bool;

/// Whether that glob set matches `path`; false where it does not build.
pub uninterp spec fn glob_sep_matches(pattern: Seq<char>, path: Seq<char>) -> bool;

/// Whether a glob of a configuration is used: short enough, and its glob
/// set builds.
pub open spec fn glob_sep_usable(pattern: Seq<char>) -> bool {
    glob_len_ok(pattern) && glob_sep_accepts(pattern)
}

/// `globset::GlobBuilder` with `case_insensitive(false)` and
/// `literal_separator(true)`, its glob added to a `GlobSetBuilder`, and that
/// set's `build()`: whether both succeed. Both return their errors (the
/// regex size limit included) instead of panicking.
#[verifier::external_body]
fn glob_sep_builds(pattern: &str) -> (b: bool)
    requires
        glob_len_ok(pattern@),
    ensures
        b == glob_sep_accepts(pattern@),
{
    match globset::GlobBuilder::new(pattern).case_insensitive(false).literal_separator(true).build() {
        Ok(g) => globset::GlobSetBuilder::new().add(g).build().is_ok(),
        Err(_) => false,
    }
}

/// `GlobSet::is_match` of the glob set built as in `glob_sep_builds`,
/// applied to `path`; false where no set is built.
#[verifier::external_body]
fn glob_sep_is_match(pattern: &str, path: &str) -> (b: bool)
    requires
        glob_len_ok(pattern@),
    ensures
        b == glob_sep_matches(pattern@, path@),
        b ==> glob_sep_accepts(pattern@),
{
    match globset::GlobBuilder::new(pattern).case_insensitive(false).literal_separator(true).build() {
        Ok(g) => match globset::GlobSetBuilder::new().add(g).build() {
            Ok(set) => set.is_match(path),
            Err(_) => false,
        },
        Err(_) => false,
    }
}

/// A configuration: whether it keeps the excludes, includes and overrides
/// of the directories above, its own excludes, includes and overrides.
#[derive(Debug)]
pub struct Config {
    inherit_excludes: Option<bool>,
    inherit_includes: Option<bool>,
    inherit_overrides: Option<bool>,
    excludes: Vec<Exclude>,
    includes: Vec<Include>,
    overrides: Vec<(Opath, Opath)>,
}

/// A configuration, as mathematics sees it.
pub struct ConfigV {
    pub inherit_excludes: Option<bool>,
    pub inherit_includes: Option<bool>,
    pub inherit_overrides: Option<bool>,
    pub excludes: Seq<ExcludeV>,
    pub includes: Seq<IncludeV>,
    pub overrides: Seq<(Seq<char>, Seq<char>)>,
}

impl View for Config {
    type V = ConfigV;

    closed spec fn view(&self) -> ConfigV {
        ConfigV {
            inherit_excludes: self.inherit_excludes,
            inherit_includes: self.inherit_includes,
            inherit_overrides: self.inherit_overrides,
            excludes: Seq::new(self.excludes@.len(), |i: int| self.excludes@[i]@),
            includes: Seq::new(self.includes@.len(), |i: int| self.includes@[i]@),
            overrides: Seq::new(self.overrides@.len(), |i: int| (self.overrides@[i].0@, self.overrides@[i].1@)),
        }
    }
}

/// The standard configuration: the hidden directories excluded; every
/// directory read as an object; `_.yaml`/`_.yml`/`_.toml`/`_.json` files
/// merged into their directory's object; other such files read under their
/// stem; any other file read as text under its stem.
pub open spec fn standard_config() -> ConfigV {
    ConfigV {
        inherit_excludes: Some(true),
        inherit_includes: Some(true),
        inherit_overrides: Some(true),
        excludes: seq![ExcludeV { path: "**/.*/**"@, file_type: None }],
        includes: seq![
            IncludeV {
                path: "**/*"@,
                file_type: Some(FileType::Dir),
                item: "map()"@,
                mapping: "$.find(array($item.@file_path_components[:-2]).join('.', '\"')).set($item.@file_name, $item)"@,
            },
            IncludeV {
                path: "**/_.{yaml,yml,toml,json}"@,
                file_type: Some(FileType::File),
                item: "loadFile(@file_path, @file_ext)"@,
                mapping: "$.find(array($item.@file_path_components[:-2]).join('.', '\"')).extend($item)"@,
            },
            IncludeV {
                path: "**/*.{yaml,yml,toml,json}"@,
                file_type: Some(FileType::File),
                item: "loadFile(@file_path, @file_ext)"@,
                mapping: "$.find(array($item.@file_path_components[:-2]).join('.', '\"')).set($item.@file_stem, $item)"@,
            },
            IncludeV {
                path: "**/*"@,
                file_type: Some(FileType::File),
                item: "loadFile(@file_path, 'text')"@,
                mapping: "$.find(array($item.@file_path_components[:-2]).join('.', '\"')).set($item.@file_stem, $item)"@,
            },
        ],
        overrides: Seq::empty(),
    }
}

/// Whether every glob of a configuration is short enough and builds.
pub open spec fn globs_build(c: ConfigV) -> bool {
    &&& forall|i: int| 0 <= i < c.excludes.len() ==> glob_sep_usable(#[trigger] c.excludes[i].path)
    &&& forall|i: int| 0 <= i < c.includes.len() ==> glob_sep_usable(#[trigger] c.includes[i].path)
}

/// Whether some exclude of `c` applies to an entry of type `ft` at `path`.
pub open spec fn excluded(c: ConfigV, path: Seq<char>, ft: FileType) -> bool {
    exists|i: int|
        0 <= i < c.excludes.len() && glob_sep_matches(#[trigger] c.excludes[i].path, path) && type_matches(
            c.excludes[i].file_type,
            ft,
        )
}

/// Whether include `i` of `c` applies to an entry of type `ft` at `path`.
pub open spec fn include_applies(c: ConfigV, i: int, path: Seq<char>, ft: FileType) -> bool {
    glob_sep_matches(c.includes[i].path, path) && type_matches(c.includes[i].file_type, ft)
}

/// The include that reads an entry of type `ft` at `path`: none where an
/// exclude applies, else the first include that applies, if any.
pub open spec fn include_for(c: ConfigV, path: Seq<char>, ft: FileType) -> Option<int> {
    if excluded(c, path, ft) {
        None
    } else if exists|i: int| 0 <= i < c.includes.len() && #[trigger] include_applies(c, i, path, ft) {
        Some(
            choose|i: int|
                0 <= i < c.includes.len() && #[trigger] include_applies(c, i, path, ft) && forall|j: int|
                    0 <= j < i ==> !include_applies(c, j, path, ft),
        )
    } else {
        None
    }
}

impl Config {
    /// The configuration that keeps nothing from above and adds nothing.
    pub fn empty() -> (c: Config)
        ensures
            c@ == (ConfigV {
                inherit_excludes: None,
                inherit_includes: None,
                inherit_overrides: None,
                excludes: Seq::empty(),
                includes: Seq::empty(),
                overrides: Seq::empty(),
            }),
    {
        let c = Config {
            inherit_excludes: None,
            inherit_includes: None,
            inherit_overrides: None,
            excludes: Vec::new(),
            includes: Vec::new(),
            overrides: Vec::new(),
        };
        assert(c@.excludes =~= Seq::empty());
        assert(c@.includes =~= Seq::empty());
        assert(c@.overrides =~= Seq::empty());
        c
    }

    /// The configuration with the given inheritance flags, excludes and
    /// includes, and the overrides set in order (a key set again moves to
    /// the end with its last value).
    pub fn from_parts(
        inherit_excludes: Option<bool>,
        inherit_includes: Option<bool>,
        inherit_overrides: Option<bool>,
        excludes: Vec<Exclude>,
        includes: Vec<Include>,
        overrides: Vec<(Opath, Opath)>,
    ) -> (c: Config)
        ensures
            c@ == (ConfigV {
                inherit_excludes,
                inherit_includes,
                inherit_overrides,
                excludes: Seq::new(excludes@.len(), |i: int| excludes@[i]@),
                includes: Seq::new(includes@.len(), |i: int| includes@[i]@),
                overrides: overrides_set(
                    Seq::empty(),
                    Seq::new(overrides@.len(), |i: int| (overrides@[i].0@, overrides@[i].1@)),
                    overrides@.len() as int,
                ),
            }),
    {
        let ghost all = Seq::new(overrides@.len(), |i: int| (overrides@[i].0@, overrides@[i].1@));
        let mut c = Config {
            inherit_excludes,
            inherit_includes,
            inherit_overrides,
            excludes,
            includes,
            overrides: Vec::new(),
        };
        assert(c@.overrides =~= Seq::empty());
        let mut rest = overrides;
        let ghost mut k: int = 0;
        while rest.len() > 0
            invariant
                0 <= k <= all.len(),
                Seq::new(rest@.len(), |i: int| (rest@[i].0@, rest@[i].1@)) =~= all.skip(k),
                c@ == (ConfigV { overrides: overrides_set(Seq::empty(), all, k), ..c@ }),
                c@.inherit_excludes == inherit_excludes,
                c@.inherit_includes == inherit_includes,
                c@.inherit_overrides == inherit_overrides,
                c@.excludes == Seq::new(excludes@.len(), |i: int| excludes@[i]@),
                c@.includes == Seq::new(includes@.len(), |i: int| includes@[i]@),
            decreases rest@.len(),
        {
            let ghost r0 = rest@;
            let (key, value) = rest.remove(0);
            proof {
                let rv0 = Seq::new(r0.len(), |i: int| (r0[i].0@, r0[i].1@));
                assert(rv0.len() == all.skip(k).len());
                assert(k < all.len());
                assert(all[k] == (key@, value@)) by {
                    assert(rv0[0] == all.skip(k)[0]);
                }
                assert(Seq::new(rest@.len(), |i: int| (rest@[i].0@, rest@[i].1@)) =~= all.skip(k + 1)) by {
                    assert forall|i: int| 0 <= i < rest@.len() implies (rest@[i].0@, rest@[i].1@) == all.skip(k + 1)[i] by {
                        assert(rest@[i] == r0[i + 1]);
                        assert(rv0[i + 1] == all.skip(k)[i + 1]);
                    }
                }
                k = k + 1;
            }
            c.set_override(key, value);
        }
        c
    }

    /// The standard configuration.
    pub fn standard() -> (c: Config)
        ensures
            c@ == standard_config(),
    {
        let mut excludes: Vec<Exclude> = Vec::new();
        excludes.push(Exclude::new("**/.*/**", None));
        let mut includes: Vec<Include> = Vec::new();
        includes.push(Include::new(
            "**/*",
            Some(FileType::Dir),
            "map()",
            "$.find(array($item.@file_path_components[:-2]).join('.', '\"')).set($item.@file_name, $item)",
        ));
        includes.push(Include::new(
            "**/_.{yaml,yml,toml,json}",
            Some(FileType::File),
            "loadFile(@file_path, @file_ext)",
            "$.find(array($item.@file_path_components[:-2]).join('.', '\"')).extend($item)",
        ));
        includes.push(Include::new(
            "**/*.{yaml,yml,toml,json}",
            Some(FileType::File),
            "loadFile(@file_path, @file_ext)",
            "$.find(array($item.@file_path_components[:-2]).join('.', '\"')).set($item.@file_stem, $item)",
        ));
        includes.push(Include::new(
            "**/*",
            Some(FileType::File),
            "loadFile(@file_path, 'text')",
            "$.find(array($item.@file_path_components[:-2]).join('.', '\"')).set($item.@file_stem, $item)",
        ));
        let c = Config {
            inherit_excludes: Some(true),
            inherit_includes: Some(true),
            inherit_overrides: Some(true),
            excludes,
            includes,
            overrides: Vec::new(),
        };
        assert(c@.excludes =~= standard_config().excludes);
        assert(c@.includes =~= standard_config().includes);
        assert(c@.overrides =~= standard_config().overrides);
        c
    }

    /// Whether the excludes of the directories above are kept; unset keeps them.
    pub fn inherit_excludes(&self) -> (b: Option<bool>)
        ensures
            b == self@.inherit_excludes,
    {
        self.inherit_excludes
    }

    /// Whether the includes of the directories above are kept; unset keeps them.
    pub fn inherit_includes(&self) -> (b: Option<bool>)
        ensures
            b == self@.inherit_includes,
    {
        self.inherit_includes
    }

    /// Whether the overrides of the directories above are kept; unset keeps them.
    pub fn inherit_overrides(&self) -> (b: Option<bool>)
        ensures
            b == self@.inherit_overrides,
    {
        self.inherit_overrides
    }

    /// The excludes, in order.
    pub fn excludes(&self) -> (e: &Vec<Exclude>)
        ensures
            Seq::new(e@.len(), |i: int| e@[i]@) == self@.excludes,
    {
        &self.excludes
    }

    /// The includes, in order.
    pub fn includes(&self) -> (i: &Vec<Include>)
        ensures
            Seq::new(i@.len(), |k: int| i@[k]@) == self@.includes,
    {
        &self.includes
    }

    /// The overrides: paths in the model, and the expressions whose values
    /// replace what is there, in order.
    pub fn overrides(&self) -> (o: &Vec<(Opath, Opath)>)
        ensures
            Seq::new(o@.len(), |i: int| (o@[i].0@, o@[i].1@)) == self@.overrides,
    {
        &self.overrides
    }

    /// Whether every glob of the configuration is short enough and builds.
    pub fn check_globs(&self) -> (b: bool)
        ensures
            b == globs_build(self@),
    {
        let mut i: usize = 0;
        while i < self.excludes.len()
            invariant
                i <= self.excludes@.len(),
                forall|j: int| 0 <= j < i ==> glob_sep_usable(#[trigger] self@.excludes[j].path),
            decreases self.excludes@.len() - i,
        {
            let p = self.excludes[i].path.as_str();
            if p.unicode_len() > 0x100_0000 || !glob_sep_builds(p) {
                assert(self@.excludes[i as int] == self.excludes@[i as int]@);
                assert(!glob_sep_usable(self@.excludes[i as int].path));
                return false;
            }
            i = i + 1;
        }
        let mut i: usize = 0;
        while i < self.includes.len()
            invariant
                i <= self.includes@.len(),
                forall|j: int| 0 <= j < self@.excludes.len() ==> glob_sep_usable(#[trigger] self@.excludes[j].path),
                forall|j: int| 0 <= j < i ==> glob_sep_usable(#[trigger] self@.includes[j].path),
            decreases self.includes@.len() - i,
        {
            let p = self.includes[i].path.as_str();
            if p.unicode_len() > 0x100_0000 || !glob_sep_builds(p) {
                assert(self@.includes[i as int] == self.includes@[i as int]@);
                assert(!glob_sep_usable(self@.includes[i as int].path));
                return false;
            }
            i = i + 1;
        }
        true
    }

    /// The include that reads the entry of type `file_type` at the relative
    /// path `path_rel`: none where an exclude applies to it, else the first
    /// include that applies, if any.
    pub fn find_include(&self, path_rel: &str, file_type: FileType) -> (r: Option<&Include>)
        requires
            globs_build(self@),
        ensures
            match r {
                Some(inc) => include_for(self@, path_rel@, file_type) matches Some(i) && inc@ == self@.includes[i],
                None => include_for(self@, path_rel@, file_type) is None,
            },
    {
        let mut i: usize = 0;
        while i < self.excludes.len()
            invariant
                i <= self.excludes@.len(),
                globs_build(self@),
                forall|j: int|
                    0 <= j < i ==> !(glob_sep_matches(#[trigger] self@.excludes[j].path, path_rel@) && type_matches(
                        self@.excludes[j].file_type,
                        file_type,
                    )),
            decreases self.excludes@.len() - i,
        {
            assert(self@.excludes[i as int] == self.excludes@[i as int]@);
            assert(glob_sep_usable(self@.excludes[i as int].path));
            if glob_sep_is_match(self.excludes[i].path.as_str(), path_rel) && self.excludes[i].matches_file_type(file_type) {
                assert(glob_sep_matches(self@.excludes[i as int].path, path_rel@));
                assert(excluded(self@, path_rel@, file_type));
                return None;
            }
            i = i + 1;
        }
        let mut i: usize = 0;
        while i < self.includes.len()
            invariant
                i <= self.includes@.len(),
                globs_build(self@),
                !excluded(self@, path_rel@, file_type),
                forall|j: int| 0 <= j < i ==> !include_applies(self@, j, path_rel@, file_type),
            decreases self.includes@.len() - i,
        {
            assert(self@.includes[i as int] == self.includes@[i as int]@);
            assert(glob_sep_usable(self@.includes[i as int].path));
            if glob_sep_is_match(self.includes[i].path.as_str(), path_rel) && self.includes[i].matches_file_type(file_type) {
                assert(include_applies(self@, i as int, path_rel@, file_type));
                let ghost k = choose|k: int|
                    0 <= k < self@.includes.len() && #[trigger] include_applies(self@, k, path_rel@, file_type) && forall|j: int|
                        0 <= j < k ==> !include_applies(self@, j, path_rel@, file_type);
                assert(k == i as int) by {
                    if k < i {
                    } else if k > i {
                        assert(!include_applies(self@, i as int, path_rel@, file_type));
                    }
                }
                return Some(&self.includes[i]);
            }
            i = i + 1;
        }
        None
    }

    /// The include that reads the entry: as `find_include`, where every glob
    /// of the configuration builds; none at all where one does not.
    pub fn find_include_checked(&self, path_rel: &str, file_type: FileType) -> (r: Option<Option<&Include>>)
        ensures
            r is None <==> !globs_build(self@),
            r matches Some(found) ==> match found {
                Some(inc) => include_for(self@, path_rel@, file_type) matches Some(i) && inc@ == self@.includes[i],
                None => include_for(self@, path_rel@, file_type) is None,
            },
    {
        if self.check_globs() {
            Some(self.find_include(path_rel, file_type))
        } else {
            None
        }
    }
}

/// Excludes under the directory `p`.
pub open spec fn excludes_under(p: Seq<char>, es: Seq<ExcludeV>) -> Seq<ExcludeV> {
    Seq::new(es.len(), |i: int| ExcludeV { path: joined(p, es[i].path), ..es[i] })
}

/// Includes under the directory `p`.
pub open spec fn includes_under(p: Seq<char>, is: Seq<IncludeV>) -> Seq<IncludeV> {
    Seq::new(is.len(), |i: int| IncludeV { path: joined(p, is[i].path), ..is[i] })
}

/// The overrides `base` with the first `k` of `os` set, in order; one that
/// is set again moves to the end.
pub open spec fn overrides_set(base: Seq<(Seq<char>, Seq<char>)>, os: Seq<(Seq<char>, Seq<char>)>, k: int) -> Seq<
    (Seq<char>, Seq<char>),
>
    decreases k,
{
    if k <= 0 || k > os.len() {
        base
    } else {
        env_insert(overrides_set(base, os, k - 1), os[k - 1].0, os[k - 1].1)
    }
}

/// `cfg` with the configuration `c` of the directory `p` applied: its
/// excludes, includes and overrides added (under `p`) to those kept.
pub open spec fn apply_config(cfg: ConfigV, p: Seq<char>, c: ConfigV) -> ConfigV {
    ConfigV {
        excludes: (if c.inherit_excludes == Some(false) { Seq::empty() } else { cfg.excludes }) + excludes_under(
            p,
            c.excludes,
        ),
        includes: (if c.inherit_includes == Some(false) { Seq::empty() } else { cfg.includes }) + includes_under(
            p,
            c.includes,
        ),
        overrides: overrides_set(
            if c.inherit_overrides == Some(false) { Seq::empty() } else { cfg.overrides },
            c.overrides,
            c.overrides.len() as int,
        ),
        ..cfg
    }
}

/// The configuration that holds for directory `path` given the
/// configurations `entries[0..k]` (directory, configuration): the standard
/// one with each applied, in order, whose directory is the model directory
/// or begins `path`.
pub open spec fn merged_config(path: Seq<char>, entries: Seq<(Seq<char>, ConfigV)>, k: int) -> ConfigV
    decreases k,
{
    if k <= 0 || k > entries.len() {
        standard_config()
    } else {
        let prev = merged_config(path, entries, k - 1);
        let (p, c) = entries[k - 1];
        if p.len() == 0 || path_has_prefix(path, p) {
            apply_config(prev, p, c)
        } else {
            prev
        }
    }
}

/// The view of a list of directory configurations.
pub open spec fn entries_view(v: Seq<(String, Config)>) -> Seq<(Seq<char>, ConfigV)> {
    Seq::new(v.len(), |i: int| (v[i].0@, v[i].1@))
}


impl Config {
    /// Whether two configurations are equal: the same inheritance flags, and
    /// the same excludes, includes and overrides in the same order.
    pub fn same(&self, other: &Config) -> (b: bool)
        ensures
            b == (self@ == other@),
    {
        if self.inherit_excludes != other.inherit_excludes || self.inherit_includes != other.inherit_includes
            || self.inherit_overrides != other.inherit_overrides {
            return false;
        }
        if self.excludes.len() != other.excludes.len() || self.includes.len() != other.includes.len()
            || self.overrides.len() != other.overrides.len() {
            assert(self@.excludes.len() != other@.excludes.len() || self@.includes.len() != other@.includes.len()
                || self@.overrides.len() != other@.overrides.len());
            return false;
        }
        let mut i: usize = 0;
        while i < self.excludes.len()
            invariant
                i <= self.excludes@.len(),
                self.excludes@.len() == other.excludes@.len(),
                forall|j: int| 0 <= j < i ==> self@.excludes[j] == #[trigger] other@.excludes[j],
            decreases self.excludes@.len() - i,
        {
            let a = &self.excludes[i];
            let b = &other.excludes[i];
            assert(self@.excludes[i as int] == a@ && other@.excludes[i as int] == b@);
            if !str_equal(a.path.as_str(), b.path.as_str()) || a.file_type != b.file_type {
                return false;
            }
            i = i + 1;
        }
        assert(self@.excludes =~= other@.excludes);
        let mut i: usize = 0;
        while i < self.includes.len()
            invariant
                i <= self.includes@.len(),
                self.includes@.len() == other.includes@.len(),
                forall|j: int| 0 <= j < i ==> self@.includes[j] == #[trigger] other@.includes[j],
            decreases self.includes@.len() - i,
        {
            let a = &self.includes[i];
            let b = &other.includes[i];
            assert(self@.includes[i as int] == a@ && other@.includes[i as int] == b@);
            if !str_equal(a.path.as_str(), b.path.as_str()) || a.file_type != b.file_type
                || !str_equal(a.item.expr.as_str(), b.item.expr.as_str())
                || !str_equal(a.mapping.expr.as_str(), b.mapping.expr.as_str()) {
                return false;
            }
            i = i + 1;
        }
        assert(self@.includes =~= other@.includes);
        let mut i: usize = 0;
        while i < self.overrides.len()
            invariant
                i <= self.overrides@.len(),
                self.overrides@.len() == other.overrides@.len(),
                forall|j: int| 0 <= j < i ==> self@.overrides[j] == #[trigger] other@.overrides[j],
            decreases self.overrides@.len() - i,
        {
            let a = &self.overrides[i];
            let b = &other.overrides[i];
            assert(self@.overrides[i as int] == (a.0@, a.1@) && other@.overrides[i as int] == (b.0@, b.1@));
            if !str_equal(a.0.expr.as_str(), b.0.expr.as_str()) || !str_equal(a.1.expr.as_str(), b.1.expr.as_str()) {
                return false;
            }
            i = i + 1;
        }
        assert(self@.overrides =~= other@.overrides);
        true
    }

    /// A copy of the configuration.
    pub fn duplicate(&self) -> (c: Config)
        ensures
            c@ == self@,
    {
        let mut excludes: Vec<Exclude> = Vec::new();
        let mut i: usize = 0;
        while i < self.excludes.len()
            invariant
                i <= self.excludes@.len(),
                excludes@.len() == i,
                forall|j: int| 0 <= j < i ==> #[trigger] excludes@[j]@ == self.excludes@[j]@,
            decreases self.excludes@.len() - i,
        {
            let e = &self.excludes[i];
            excludes.push(Exclude { path: e.path.clone(), file_type: e.file_type });
            i = i + 1;
        }
        let mut includes: Vec<Include> = Vec::new();
        let mut i: usize = 0;
        while i < self.includes.len()
            invariant
                i <= self.includes@.len(),
                includes@.len() == i,
                forall|j: int| 0 <= j < i ==> #[trigger] includes@[j]@ == self.includes@[j]@,
            decreases self.includes@.len() - i,
        {
            let e = &self.includes[i];
            includes.push(Include { path: e.path.clone(), file_type: e.file_type, item: e.item.duplicate(), mapping: e.mapping.duplicate() });
            i = i + 1;
        }
        let mut overrides: Vec<(Opath, Opath)> = Vec::new();
        let mut i: usize = 0;
        while i < self.overrides.len()
            invariant
                i <= self.overrides@.len(),
                overrides@.len() == i,
                forall|j: int| 0 <= j < i ==> #[trigger] overrides@[j].0@ == self.overrides@[j].0@ && overrides@[j].1@ == self.overrides@[j].1@,
            decreases self.overrides@.len() - i,
        {
            overrides.push((self.overrides[i].0.duplicate(), self.overrides[i].1.duplicate()));
            i = i + 1;
        }
        let c = Config {
            inherit_excludes: self.inherit_excludes,
            inherit_includes: self.inherit_includes,
            inherit_overrides: self.inherit_overrides,
            excludes,
            includes,
            overrides,
        };
        assert(c@.excludes =~= self@.excludes);
        assert(c@.includes =~= self@.includes);
        assert(c@.overrides =~= self@.overrides);
        c
    }

    /// Sets override `key` to `value`; one set already moves to the end.
    pub fn set_override(&mut self, key: Opath, value: Opath)
        ensures
            final(self)@ == (ConfigV { overrides: env_insert(old(self)@.overrides, key@, value@), ..old(self)@ }),
    {
        let ghost o0 = old(self)@.overrides;
        let mut kept: Vec<(Opath, Opath)> = Vec::new();
        let mut i: usize = 0;
        while i < self.overrides.len()
            invariant
                i <= self.overrides@.len(),
                o0 == old(self)@.overrides,
                self@ == old(self)@,
                Seq::new(kept@.len(), |j: int| (kept@[j].0@, kept@[j].1@)) == crate::command::env::without_key(
                    o0.take(i as int),
                    key@,
                ),
            decreases self.overrides@.len() - i,
        {
            proof {
                assert(o0.take(i + 1).drop_last() =~= o0.take(i as int));
                assert(o0.take(i + 1).last() == o0[i as int]);
            }
            if !str_equal(self.overrides[i].0.expr.as_str(), key.expr.as_str()) {
                let ghost before = kept@;
                kept.push((self.overrides[i].0.duplicate(), self.overrides[i].1.duplicate()));
                proof {
                    assert(Seq::new(kept@.len(), |j: int| (kept@[j].0@, kept@[j].1@)) =~= Seq::new(before.len(), |j: int| (before[j].0@, before[j].1@)).push(o0[i as int]));
                }
            }
            i = i + 1;
        }
        let ghost before = kept@;
        kept.push((key, value));
        proof {
            assert(o0.take(o0.len() as int) =~= o0);
            assert(Seq::new(kept@.len(), |j: int| (kept@[j].0@, kept@[j].1@)) =~= Seq::new(before.len(), |j: int| (before[j].0@, before[j].1@)).push((key@, value@)));
        }
        self.overrides = kept;
        assert(self@.overrides =~= env_insert(o0, key@, value@));
        assert(self@.excludes =~= old(self)@.excludes);
        assert(self@.includes =~= old(self)@.includes);
    }

    /// Applies the configuration `c` of the directory `p`.
    #[verifier::loop_isolation(false)]
    pub fn apply(&mut self, p: &str, c: &Config)
        ensures
            final(self)@ == apply_config(old(self)@, p@, c@),
    {
        let ghost s0 = self@;
        if c.inherit_excludes == Some(false) {
            self.excludes = Vec::new();
        }
        let ghost base_e = self@.excludes;
        assert(base_e =~= if c@.inherit_excludes == Some(false) { Seq::empty() } else { s0.excludes });
        let mut i: usize = 0;
        while i < c.excludes.len()
            invariant
                i <= c.excludes@.len(),
                self@.excludes == base_e + excludes_under(p@, c@.excludes).take(i as int),
                self@.includes == s0.includes,
                self@.overrides == s0.overrides,
                self@.inherit_excludes == s0.inherit_excludes,
                self@.inherit_includes == s0.inherit_includes,
                self@.inherit_overrides == s0.inherit_overrides,
            decreases c.excludes@.len() - i,
        {
            let e = c.excludes[i].with_base_path(p);
            assert(c@.excludes[i as int] == c.excludes@[i as int]@);
            assert(e@ == excludes_under(p@, c@.excludes)[i as int]);
            let ghost before = self@.excludes;
            self.excludes.push(e);
            assert(self@.excludes =~= before.push(e@));
            assert(excludes_under(p@, c@.excludes).take(i + 1) =~= excludes_under(p@, c@.excludes).take(i as int).push(e@));
            assert(self@.excludes =~= base_e + excludes_under(p@, c@.excludes).take(i + 1));
            i = i + 1;
        }
        assert(excludes_under(p@, c@.excludes).take(c@.excludes.len() as int) =~= excludes_under(p@, c@.excludes));
        if c.inherit_includes == Some(false) {
            self.includes = Vec::new();
        }
        let ghost base_i = self@.includes;
        assert(base_i =~= if c@.inherit_includes == Some(false) { Seq::empty() } else { s0.includes });
        let mut i: usize = 0;
        while i < c.includes.len()
            invariant
                i <= c.includes@.len(),
                self@.includes == base_i + includes_under(p@, c@.includes).take(i as int),
                self@.excludes == apply_config(s0, p@, c@).excludes,
                self@.overrides == s0.overrides,
                self@.inherit_excludes == s0.inherit_excludes,
                self@.inherit_includes == s0.inherit_includes,
                self@.inherit_overrides == s0.inherit_overrides,
            decreases c.includes@.len() - i,
        {
            let e = c.includes[i].with_base_path(p);
            assert(c@.includes[i as int] == c.includes@[i as int]@);
            assert(e@ == includes_under(p@, c@.includes)[i as int]);
            let ghost before = self@.includes;
            self.includes.push(e);
            assert(self@.includes =~= before.push(e@));
            assert(includes_under(p@, c@.includes).take(i + 1) =~= includes_under(p@, c@.includes).take(i as int).push(e@));
            assert(self@.includes =~= base_i + includes_under(p@, c@.includes).take(i + 1));
            i = i + 1;
        }
        assert(includes_under(p@, c@.includes).take(c@.includes.len() as int) =~= includes_under(p@, c@.includes));
        if c.inherit_overrides == Some(false) {
            self.overrides = Vec::new();
        }
        let ghost base_o = self@.overrides;
        assert(base_o =~= if c@.inherit_overrides == Some(false) { Seq::empty() } else { s0.overrides });
        let mut i: usize = 0;
        while i < c.overrides.len()
            invariant
                i <= c.overrides@.len(),
                self@.overrides == overrides_set(base_o, c@.overrides, i as int),
                self@.excludes == apply_config(s0, p@, c@).excludes,
                self@.includes == apply_config(s0, p@, c@).includes,
                self@.inherit_excludes == s0.inherit_excludes,
                self@.inherit_includes == s0.inherit_includes,
                self@.inherit_overrides == s0.inherit_overrides,
            decreases c.overrides@.len() - i,
        {
            assert(c@.overrides[i as int] == (c.overrides@[i as int].0@, c.overrides@[i as int].1@));
            self.set_override(c.overrides[i].0.duplicate(), c.overrides[i].1.duplicate());
            i = i + 1;
        }
        assert(self@.overrides =~= apply_config(s0, p@, c@).overrides);
    }

    /// The configuration that holds for directory `path` given the
    /// configurations of directories `entries`, in order.
    pub fn merged(path: &str, entries: &Vec<(String, Config)>) -> (c: Config)
        ensures
            c@ == merged_config(path@, entries_view(entries@), entries@.len() as int),
    {
        let ghost ev = entries_view(entries@);
        let mut c = Config::standard();
        let mut k: usize = 0;
        while k < entries.len()
            invariant
                k <= entries@.len(),
                ev == entries_view(entries@),
                c@ == merged_config(path@, ev, k as int),
            decreases entries@.len() - k,
        {
            let p = entries[k].0.as_str();
            assert(ev[k as int] == (entries@[k as int].0@, entries@[k as int].1@));
            if p.unicode_len() == 0 || path_starts_with(path, p) {
                c.apply(p, &entries[k].1);
            }
            k = k + 1;
        }
        c
    }
}

/// Whether reading a model passes over the entry at `rel` (relative to the
/// model directory): it lies under the work directory `.op`, or it is a
/// file named `op.toml` or `.operc`.
pub open spec fn entry_skipped(rel: Seq<char>, ft: FileType) -> bool {
    ||| path_has_prefix(rel, ".op/"@)
    ||| (ft == FileType::File && (file_name_of(rel) == Some("op.toml"@) || file_name_of(rel) == Some(".operc"@)))
}

/// Whether the path `a` sorts before `b`: character by character, `/`
/// before any other character, a path before its extensions.
pub open spec fn path_before(a: Seq<char>, b: Seq<char>) -> bool
    decreases a.len(),
{
    if a.len() == 0 {
        b.len() > 0
    } else if b.len() == 0 {
        false
    } else if a[0] == b[0] {
        path_before(a.drop_first(), b.drop_first())
    } else {
        a[0] == '/' || (b[0] != '/' && (a[0] as u32) < (b[0] as u32))
    }
}

/// Whether the path `a` sorts before `b`.
pub fn path_sorts_before(a: &str, b: &str) -> (r: bool)
    ensures
        r == path_before(a@, b@),
{
    let n = a.unicode_len();
    let m = b.unicode_len();
    let mut i: usize = 0;
    assert(a@.skip(0) =~= a@);
    assert(b@.skip(0) =~= b@);
    while i < n && i < m
        invariant
            n == a@.len(),
            m == b@.len(),
            i <= n,
            i <= m,
            path_before(a@, b@) == path_before(a@.skip(i as int), b@.skip(i as int)),
        decreases n - i,
    {
        let x = a.get_char(i);
        let y = b.get_char(i);
        assert(a@.skip(i as int)[0] == x && b@.skip(i as int)[0] == y);
        if x != y {
            return x == '/' || (y != '/' && (x as u32) < (y as u32));
        }
        assert(a@.skip(i as int).drop_first() =~= a@.skip(i + 1));
        assert(b@.skip(i as int).drop_first() =~= b@.skip(i + 1));
        i = i + 1;
    }
    assert(a@.skip(i as int).len() == n - i);
    assert(b@.skip(i as int).len() == m - i);
    i == n && i < m
}

/// The configurations of a model's directories, sorted by directory
/// (relative to the model directory), each merged with those above it.
#[derive(Debug)]
pub struct ConfigResolver {
    model_dir: String,
    configs: Vec<(String, Config)>,
}

/// `entries` with `config` for directory `p`: one for the same directory
/// is replaced in place; otherwise it goes before the first that sorts
/// after it.
pub open spec fn entries_with(entries: Seq<(Seq<char>, ConfigV)>, p: Seq<char>, config: ConfigV) -> Seq<(Seq<char>, ConfigV)> {
    if exists|i: int| 0 <= i < entries.len() && #[trigger] entries[i].0 == p {
        let i = choose|i: int| 0 <= i < entries.len() && #[trigger] entries[i].0 == p && forall|j: int| 0 <= j < i ==> entries[j].0 != p;
        entries.update(i, (p, config))
    } else if exists|i: int| 0 <= i < entries.len() && path_before(p, #[trigger] entries[i].0) {
        let i = choose|i: int| 0 <= i < entries.len() && path_before(p, #[trigger] entries[i].0) && forall|j: int| 0 <= j < i ==> !path_before(p, entries[j].0);
        entries.insert(i, (p, config))
    } else {
        entries.push((p, config))
    }
}

impl ConfigResolver {
    /// A resolver for the model in `model_dir`, with no configurations yet.
    pub fn new(model_dir: &str) -> (r: ConfigResolver)
        ensures
            r.model_dir_v() == model_dir@,
            r.configs_v() == Seq::<(Seq<char>, ConfigV)>::empty(),
    {
        let r = ConfigResolver { model_dir: to_owned_string(model_dir), configs: Vec::new() };
        assert(r.configs_v() =~= Seq::<(Seq<char>, ConfigV)>::empty());
        r
    }

    /// The model directory, as a value.
    pub closed spec fn model_dir_v(&self) -> Seq<char> {
        self.model_dir@
    }

    /// The configurations, as values.
    pub closed spec fn configs_v(&self) -> Seq<(Seq<char>, ConfigV)> {
        entries_view(self.configs@)
    }

    /// Records the configuration file found in directory `path`, which lies
    /// in the model directory.
    #[verifier::loop_isolation(false)]
    pub fn add_file(&mut self, path: &str, config: Config)
        requires
            path_has_prefix(path@, old(self).model_dir_v()),
        ensures
            final(self).model_dir_v() == old(self).model_dir_v(),
            final(self).configs_v() == entries_with(
                old(self).configs_v(),
                path_after_prefix(path@, old(self).model_dir_v()),
                config@,
            ),
    {
        let p = path_strip_prefix(path, self.model_dir.as_str()).unwrap();
        let ghost e0 = self.configs_v();
        let mut i: usize = 0;
        while i < self.configs.len()
            invariant
                i <= self.configs@.len(),
                e0 == self.configs_v(),
                self.model_dir_v() == old(self).model_dir_v(),
                forall|j: int| 0 <= j < i ==> #[trigger] e0[j].0 != p@,
            decreases self.configs@.len() - i,
        {
            assert(e0[i as int].0 == self.configs@[i as int].0@);
            if str_equal(self.configs[i].0.as_str(), p.as_str()) {
                self.configs.set(i, (p, config));
                proof {
                    let k = choose|k: int| 0 <= k < e0.len() && #[trigger] e0[k].0 == p@ && forall|j: int| 0 <= j < k ==> e0[j].0 != p@;
                    assert(k == i as int) by {
                        if k > i {
                            assert(e0[i as int].0 == p@);
                        }
                    }
                    assert(self.configs_v() =~= e0.update(i as int, (p@, config@)));
                }
                return;
            }
            i = i + 1;
        }
        let mut i: usize = 0;
        while i < self.configs.len()
            invariant
                i <= self.configs@.len(),
                e0 == self.configs_v(),
                self.model_dir_v() == old(self).model_dir_v(),
                forall|j: int| 0 <= j < e0.len() ==> #[trigger] e0[j].0 != p@,
                forall|j: int| 0 <= j < i ==> !path_before(p@, #[trigger] e0[j].0),
            decreases self.configs@.len() - i,
        {
            assert(e0[i as int].0 == self.configs@[i as int].0@);
            if path_sorts_before(p.as_str(), self.configs[i].0.as_str()) {
                self.configs.insert(i, (p, config));
                proof {
                    let k = choose|k: int| 0 <= k < e0.len() && path_before(p@, #[trigger] e0[k].0) && forall|j: int| 0 <= j < k ==> !path_before(p@, e0[j].0);
                    assert(k == i as int) by {
                        if k > i {
                            assert(path_before(p@, e0[i as int].0));
                        }
                    }
                    assert(self.configs_v() =~= e0.insert(i as int, (p@, config@)));
                }
                return;
            }
            i = i + 1;
        }
        self.configs.push((p, config));
        assert(self.configs_v() =~= e0.push((p@, config@)));
    }

    /// Merges each directory's configuration with those above it, and adds
    /// the standard configuration for the model directory where it has none.
    #[verifier::loop_isolation(false)]
    pub fn resolve_all(&mut self)
        ensures
            final(self).model_dir_v() == old(self).model_dir_v(),
            exists|i: int| 0 <= i < final(self).configs_v().len() && #[trigger] final(self).configs_v()[i].0.len() == 0,
            final(self).configs_v() == {
                let e = old(self).configs_v();
                let merged = Seq::new(e.len(), |i: int| (e[i].0, merged_config(e[i].0, e, e.len() as int)));
                if exists|i: int| 0 <= i < e.len() && #[trigger] e[i].0.len() == 0 {
                    merged
                } else {
                    seq![(Seq::<char>::empty(), standard_config())] + merged
                }
            },
    {
        let ghost e = self.configs_v();
        let mut merged: Vec<(String, Config)> = Vec::new();
        let mut has_root = false;
        let mut i: usize = 0;
        while i < self.configs.len()
            invariant
                i <= self.configs@.len(),
                e == self.configs_v(),
                merged@.len() == i,
                forall|j: int| 0 <= j < i ==> #[trigger] entries_view(merged@)[j] == (e[j].0, merged_config(e[j].0, e, e.len() as int)),
                has_root == exists|j: int| 0 <= j < i && #[trigger] e[j].0.len() == 0,
            decreases self.configs@.len() - i,
        {
            let p = self.configs[i].0.as_str();
            assert(e[i as int].0 == p@);
            let c = Config::merged(p, &self.configs);
            if p.unicode_len() == 0 {
                has_root = true;
            }
            let ghost mbefore = merged@;
            merged.push((self.configs[i].0.clone(), c));
            proof {
                assert(entries_view(merged@)[i as int] == (e[i as int].0, merged_config(e[i as int].0, e, e.len() as int)));
                assert forall|j: int| 0 <= j < i + 1 implies #[trigger] entries_view(merged@)[j] == (e[j].0, merged_config(e[j].0, e, e.len() as int)) by {
                    if j < i {
                        assert(merged@[j] == mbefore[j]);
                        assert(entries_view(mbefore)[j] == (e[j].0, merged_config(e[j].0, e, e.len() as int)));
                    }
                }
                if p@.len() == 0 {
                    assert(e[i as int].0.len() == 0);
                }
            }
            i = i + 1;
        }
        let ghost mb = merged@;
        if !has_root {
            let root = (String::new(), Config::standard());
            let ghost rv = (root.0@, root.1@);
            merged.insert(0, root);
            proof {
                assert(merged@ == mb.insert(0, root));
                assert forall|j: int| 0 <= j < merged@.len() implies #[trigger] entries_view(merged@)[j]
                    == (seq![(Seq::<char>::empty(), standard_config())] + entries_view(mb))[j] by {
                    if j > 0 {
                        assert(merged@[j] == mb[j - 1]);
                    }
                }
                assert(entries_view(merged@) =~= seq![(Seq::<char>::empty(), standard_config())] + entries_view(mb));
            }
        }
        self.configs = merged;
        proof {
            let m = Seq::new(e.len(), |i: int| (e[i].0, merged_config(e[i].0, e, e.len() as int)));
            assert(entries_view(mb) =~= m);
            if has_root {
                assert(self.configs_v() =~= m);
                let j = choose|j: int| 0 <= j < e.len() && #[trigger] e[j].0.len() == 0;
                assert(self.configs_v()[j].0.len() == 0);
            } else {
                assert(self.configs_v() =~= seq![(Seq::<char>::empty(), standard_config())] + m);
                assert(self.configs_v()[0].0.len() == 0);
            }
        }
    }

    /// The configurations, in order: directory (relative to the model
    /// directory) and configuration.
    pub fn iter(&self) -> (c: &Vec<(String, Config)>)
        ensures
            entries_view(c@) == self.configs_v(),
    {
        &self.configs
    }

    /// The configuration for the directory `path`, which lies in the model
    /// directory: the last one whose directory is the model directory or
    /// begins `path`.
    pub fn resolve(&self, path: &str) -> (c: &Config)
        requires
            path_has_prefix(path@, self.model_dir_v()),
            exists|i: int| 0 <= i < self.configs_v().len() && #[trigger] self.configs_v()[i].0.len() == 0,
        ensures
            exists|i: int|
                0 <= i < self.configs_v().len() && c@ == self.configs_v()[i].1 && (self.configs_v()[i].0.len() == 0
                    || path_has_prefix(path_after_prefix(path@, self.model_dir_v()), self.configs_v()[i].0))
                    && forall|j: int|
                    i < j < self.configs_v().len() ==> !(#[trigger] self.configs_v()[j].0.len() == 0 || path_has_prefix(
                        path_after_prefix(path@, self.model_dir_v()),
                        self.configs_v()[j].0,
                    )),
    {
        let rel = path_strip_prefix(path, self.model_dir.as_str()).unwrap();
        let ghost e = self.configs_v();
        let mut i: usize = self.configs.len();
        while i > 0
            invariant
                i <= self.configs@.len(),
                e == self.configs_v(),
                rel@ == path_after_prefix(path@, self.model_dir_v()),
                exists|j: int| 0 <= j < e.len() && #[trigger] e[j].0.len() == 0,
                forall|j: int| i <= j < e.len() ==> !(#[trigger] e[j].0.len() == 0 || path_has_prefix(rel@, e[j].0)),
            decreases i,
        {
            let k = i - 1;
            let p = self.configs[k].0.as_str();
            assert(e[k as int].0 == p@);
            if p.unicode_len() == 0 || path_starts_with(rel.as_str(), p) {
                assert(e[k as int].1 == self.configs@[k as int].1@);
                return &self.configs[k].1;
            }
            i = k;
        }
        proof {
            let j = choose|j: int| 0 <= j < e.len() && #[trigger] e[j].0.len() == 0;
            assert(!(e[j].0.len() == 0 || path_has_prefix(rel@, e[j].0)));
        }
        &self.configs[0].1
    }

    /// The include that reads the entry of type `file_type` at `path_abs`
    /// while a model is read: none for an entry under the work directory
    /// `.op`, for the manifest file `op.toml` and the configuration files
    /// `.operc`; otherwise what the configuration for `path_abs` finds for
    /// the entry's path relative to the model directory.
    pub fn entry_include(&self, path_abs: &str, file_type: FileType) -> (r: Option<&Include>)
        requires
            path_has_prefix(path_abs@, self.model_dir_v()),
            exists|i: int| 0 <= i < self.configs_v().len() && #[trigger] self.configs_v()[i].0.len() == 0,
            forall|i: int| 0 <= i < self.configs_v().len() ==> globs_build(#[trigger] self.configs_v()[i].1),
        ensures
            entry_skipped(path_after_prefix(path_abs@, self.model_dir_v()), file_type) ==> r is None,
            !entry_skipped(path_after_prefix(path_abs@, self.model_dir_v()), file_type) ==> exists|i: int|
                0 <= i < self.configs_v().len() && (self.configs_v()[i].0.len() == 0 || path_has_prefix(
                    path_after_prefix(path_abs@, self.model_dir_v()),
                    self.configs_v()[i].0,
                )) && (forall|j: int|
                    i < j < self.configs_v().len() ==> !(#[trigger] self.configs_v()[j].0.len() == 0 || path_has_prefix(
                        path_after_prefix(path_abs@, self.model_dir_v()),
                        self.configs_v()[j].0,
                    ))) && match r {
                    Some(inc) => include_for(self.configs_v()[i].1, path_after_prefix(path_abs@, self.model_dir_v()), file_type)
                        matches Some(k) && inc@ == self.configs_v()[i].1.includes[k],
                    None => include_for(self.configs_v()[i].1, path_after_prefix(path_abs@, self.model_dir_v()), file_type) is None,
                },
    {
        let rel = path_strip_prefix(path_abs, self.model_dir.as_str()).unwrap();
        if path_starts_with(rel.as_str(), ".op/") {
            return None;
        }
        if file_type == FileType::File {
            match path_file_name(rel.as_str()) {
                Some(name) => {
                    if str_equal(name.as_str(), "op.toml") || str_equal(name.as_str(), ".operc") {
                        return None;
                    }
                },
                None => {},
            }
        }
        let config = self.resolve(path_abs);
        config.find_include(rel.as_str(), file_type)
    }

    /// Whether every glob of every configuration is short enough and builds.
    pub fn check_all_globs(&self) -> (b: bool)
        ensures
            b == forall|i: int| 0 <= i < self.configs_v().len() ==> globs_build(#[trigger] self.configs_v()[i].1),
    {
        let mut i: usize = 0;
        while i < self.configs.len()
            invariant
                i <= self.configs@.len(),
                forall|j: int| 0 <= j < i ==> globs_build(#[trigger] self.configs_v()[j].1),
            decreases self.configs@.len() - i,
        {
            if !self.configs[i].1.check_globs() {
                assert(!globs_build(self.configs_v()[i as int].1));
                return false;
            }
            i = i + 1;
        }
        true
    }

    /// The include for an entry as `entry_include` finds it, where
    /// `path_abs` lies in the model directory, the model directory has a
    /// configuration and every glob builds; none where one of these fails.
    pub fn try_entry_include(&self, path_abs: &str, file_type: FileType) -> (r: Option<Option<&Include>>)
        ensures
            r is Some <==> (path_has_prefix(path_abs@, self.model_dir_v())
                && (exists|i: int| 0 <= i < self.configs_v().len() && #[trigger] self.configs_v()[i].0.len() == 0)
                && (forall|i: int| 0 <= i < self.configs_v().len() ==> globs_build(#[trigger] self.configs_v()[i].1))),
            r matches Some(found) ==> (entry_skipped(path_after_prefix(path_abs@, self.model_dir_v()), file_type) ==> found is None),
            r matches Some(found) ==> (!entry_skipped(path_after_prefix(path_abs@, self.model_dir_v()), file_type) ==> exists|i: int|
                0 <= i < self.configs_v().len() && (self.configs_v()[i].0.len() == 0 || path_has_prefix(
                    path_after_prefix(path_abs@, self.model_dir_v()),
                    self.configs_v()[i].0,
                )) && (forall|j: int|
                    i < j < self.configs_v().len() ==> !(#[trigger] self.configs_v()[j].0.len() == 0 || path_has_prefix(
                        path_after_prefix(path_abs@, self.model_dir_v()),
                        self.configs_v()[j].0,
                    ))) && match found {
                    Some(inc) => include_for(self.configs_v()[i].1, path_after_prefix(path_abs@, self.model_dir_v()), file_type)
                        matches Some(k) && inc@ == self.configs_v()[i].1.includes[k],
                    None => include_for(self.configs_v()[i].1, path_after_prefix(path_abs@, self.model_dir_v()), file_type) is None,
                }),
    {
        if !path_starts_with(path_abs, self.model_dir.as_str()) || !self.check_all_globs() {
            return None;
        }
        let mut i: usize = 0;
        while i < self.configs.len()
            invariant
                i <= self.configs@.len(),
                path_has_prefix(path_abs@, self.model_dir_v()),
                forall|j: int| 0 <= j < self.configs_v().len() ==> globs_build(#[trigger] self.configs_v()[j].1),
                forall|j: int| 0 <= j < i ==> #[trigger] self.configs_v()[j].0.len() != 0,
            decreases self.configs@.len() - i,
        {
            if self.configs[i].0.as_str().unicode_len() == 0 {
                assert(self.configs_v()[i as int].0.len() == 0);
                return Some(self.entry_include(path_abs, file_type));
            }
            i = i + 1;
        }
        None
    }

    /// Records the configuration file found in directory `path` where
    /// that lies in the model directory; true where it does.
    pub fn try_add_file(&mut self, path: &str, config: Config) -> (added: bool)
        ensures
            added == path_has_prefix(path@, old(self).model_dir_v()),
            final(self).model_dir_v() == old(self).model_dir_v(),
            final(self).configs_v() == if added {
                entries_with(old(self).configs_v(), path_after_prefix(path@, old(self).model_dir_v()), config@)
            } else {
                old(self).configs_v()
            },
    {
        if path_starts_with(path, self.model_dir.as_str()) {
            self.add_file(path, config);
            true
        } else {
            false
        }
    }

    /// The configuration for the directory `path`, as `resolve` gives it,
    /// where `path` lies in the model directory and the model directory has
    /// a configuration; none otherwise.
    #[verifier::loop_isolation(false)]
    pub fn try_resolve(&self, path: &str) -> (c: Option<&Config>)
        ensures
            c is Some <==> (path_has_prefix(path@, self.model_dir_v()) && exists|i: int|
                0 <= i < self.configs_v().len() && #[trigger] self.configs_v()[i].0.len() == 0),
            c matches Some(cfg) ==> exists|i: int|
                0 <= i < self.configs_v().len() && cfg@ == self.configs_v()[i].1 && (self.configs_v()[i].0.len() == 0
                    || path_has_prefix(path_after_prefix(path@, self.model_dir_v()), self.configs_v()[i].0))
                    && forall|j: int|
                    i < j < self.configs_v().len() ==> !(#[trigger] self.configs_v()[j].0.len() == 0 || path_has_prefix(
                        path_after_prefix(path@, self.model_dir_v()),
                        self.configs_v()[j].0,
                    )),
    {
        if !path_starts_with(path, self.model_dir.as_str()) {
            return None;
        }
        let mut i: usize = 0;
        while i < self.configs.len()
            invariant
                i <= self.configs@.len(),
                forall|j: int| 0 <= j < i ==> #[trigger] self.configs_v()[j].0.len() != 0,
            decreases self.configs@.len() - i,
        {
            if self.configs[i].0.as_str().unicode_len() == 0 {
                assert(self.configs_v()[i as int].0.len() == 0);
                return Some(self.resolve(path));
            }
            i = i + 1;
        }
        None
    }
}

} // verus!
