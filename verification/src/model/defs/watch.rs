//! What an updater watches: changes of the model at paths an expression
//! selects, and changes of files whose paths a glob matches, each for the
//! kinds of change named in a mask.
use vstd::prelude::*;
use crate::model::defs::{DefsError, DefsErrorDetail, Opath};
use crate::text::to_owned_string;

verus! {

/// A kind of change.
#[derive(Debug, Clone, Copy, PartialEq, Eq, Structural)]
pub enum ChangeKind {
    Added,
    Removed,
    Updated,
    Moved,
}

/// A set of kinds of change.
#[derive(Debug, Clone, Copy, PartialEq, Eq, Structural)]
pub struct ChangeKindMask {
    pub added: bool,
    pub removed: bool,
    pub updated: bool,
    pub moved: bool,
}

/// The kind a mark character names: `+` added, `-` removed, `*` updated,
/// `~` moved.
pub open spec fn mark_kind(c: char) -> Option<ChangeKind> {
    if c == '+' {
        Some(ChangeKind::Added)
    } else if c == '-' {
        Some(ChangeKind::Removed)
    } else if c == '*' {
        Some(ChangeKind::Updated)
    } else if c == '~' {
        Some(ChangeKind::Moved)
    } else {
        None
    }
}

/// The kind a word names: `add`/`added`, `remove`/`removed`,
/// `update`/`updated`, `move`/`moved`.
pub open spec fn word_kind(w: Seq<char>) -> Option<ChangeKind> {
    if w == "add"@ || w == "added"@ {
        Some(ChangeKind::Added)
    } else if w == "remove"@ || w == "removed"@ {
        Some(ChangeKind::Removed)
    } else if w == "update"@ || w == "updated"@ {
        Some(ChangeKind::Updated)
    } else if w == "move"@ || w == "moved"@ {
        Some(ChangeKind::Moved)
    } else {
        None
    }
}

/// Whether `c` is an ASCII letter.
pub open spec fn is_ascii_letter(c: char) -> bool {
    ('a' <= c && c <= 'z') || ('A' <= c && c <= 'Z')
}

/// Whether `w` is `all` in any case.
pub open spec fn is_all_word(w: Seq<char>) -> bool {
    w.len() == 3 && (w[0] == 'a' || w[0] == 'A') && (w[1] == 'l' || w[1] == 'L') && (w[2] == 'l' || w[2] == 'L')
}

/// The end of the run of ASCII letters that starts at `i`.
pub open spec fn letters_end(s: Seq<char>, i: int) -> int
    decreases s.len() - i,
{
    if i < 0 || i >= s.len() || !is_ascii_letter(s[i]) {
        i
    } else {
        letters_end(s, i + 1)
    }
}

/// `m` with kind `k` added.
pub open spec fn with_kind(m: ChangeKindMask, k: ChangeKind) -> ChangeKindMask {
    match k {
        ChangeKind::Added => ChangeKindMask { added: true, ..m },
        ChangeKind::Removed => ChangeKindMask { removed: true, ..m },
        ChangeKind::Updated => ChangeKindMask { updated: true, ..m },
        ChangeKind::Moved => ChangeKindMask { moved: true, ..m },
    }
}

/// The mask with every kind.
pub open spec fn all_kinds() -> ChangeKindMask {
    ChangeKindMask { added: true, removed: true, updated: true, moved: true }
}

/// The mask with no kind.
pub open spec fn no_kinds() -> ChangeKindMask {
    ChangeKindMask { added: false, removed: false, updated: false, moved: false }
}

/// Reads the mask text `s` from position `i` on, with `m` read so far: a
/// mark adds its kind; a run of letters is a word, `all` (in any case)
/// standing for every kind and a kind's name adding it, and reading goes on
/// two characters after the word's first, plus the word's length less one;
/// anything else is skipped.
pub open spec fn mask_scan(s: Seq<char>, i: int, m: ChangeKindMask) -> ChangeKindMask
    decreases s.len() - i,
{
    if i < 0 || i >= s.len() {
        m
    } else if mark_kind(s[i]) is Some {
        mask_scan(s, i + 1, with_kind(m, mark_kind(s[i])->0))
    } else if is_ascii_letter(s[i]) {
        let j = letters_end(s, i);
        proof {
            lemma_letters_end(s, i);
        }
        let w = s.subrange(i, j);
        let m2 = if is_all_word(w) {
            all_kinds()
        } else {
            match word_kind(w) {
                Some(k) => with_kind(m, k),
                None => m,
            }
        };
        if j < s.len() { mask_scan(s, j + 1, m2) } else { m2 }
    } else {
        mask_scan(s, i + 1, m)
    }
}

/// The mask a text names.
pub open spec fn mask_of(s: Seq<char>) -> ChangeKindMask {
    mask_scan(s, 0, no_kinds())
}

/// `letters_end` lies between `i` and the end, and only letters lie before it.
pub proof fn lemma_letters_end(s: Seq<char>, i: int)
    requires
        0 <= i <= s.len(),
    ensures
        i <= letters_end(s, i) <= s.len(),
        forall|k: int| i <= k < letters_end(s, i) ==> is_ascii_letter(#[trigger] s[k]),
        letters_end(s, i) < s.len() ==> !is_ascii_letter(s[letters_end(s, i)]),
    decreases s.len() - i,
{
    if i < s.len() && is_ascii_letter(s[i]) {
        lemma_letters_end(s, i + 1);
    }
}

/// Whether `c` is an ASCII letter.
fn ascii_letter(c: char) -> (b: bool)
    ensures
        b == is_ascii_letter(c),
{
    ('a' <= c && c <= 'z') || ('A' <= c && c <= 'Z')
}

/// Whether the characters of `s` from `i` to `j` spell `w`.
fn spells(s: &str, i: usize, j: usize, w: &str) -> (b: bool)
    requires
        i <= j <= s@.len(),
    ensures
        b == (s@.subrange(i as int, j as int) == w@),
{
    let m = w.unicode_len();
    if j - i != m {
        return false;
    }
    let mut k: usize = 0;
    while k < m
        invariant
            m == w@.len(),
            j - i == m,
            i <= j <= s@.len(),
            k <= m,
            forall|t: int| 0 <= t < k ==> s@[i + t] == w@[t],
        decreases m - k,
    {
        if s.get_char(i + k) != w.get_char(k) {
            assert(s@.subrange(i as int, j as int)[k as int] != w@[k as int]);
            return false;
        }
        k = k + 1;
    }
    assert(s@.subrange(i as int, j as int) =~= w@);
    true
}

impl ChangeKindMask {
    /// The mask with every kind.
    pub fn all() -> (m: ChangeKindMask)
        ensures
            m == all_kinds(),
    {
        ChangeKindMask { added: true, removed: true, updated: true, moved: true }
    }

    /// The mask a text names: marks `+`, `-`, `*`, `~`, the words `add(ed)`,
    /// `remove(d)`, `update(d)`, `move(d)`, and `all` in any case.
    pub fn parse(mask: &str) -> (m: ChangeKindMask)
        ensures
            m == mask_of(mask@),
    {
        let n = mask.unicode_len();
        let mut m = ChangeKindMask { added: false, removed: false, updated: false, moved: false };
        let mut i: usize = 0;
        while i < n
            invariant
                n == mask@.len(),
                mask_scan(mask@, i as int, m) == mask_of(mask@),
            decreases n - i,
        {
            let c = mask.get_char(i);
            if c == '+' {
                m.added = true;
                i = i + 1;
            } else if c == '-' {
                m.removed = true;
                i = i + 1;
            } else if c == '*' {
                m.updated = true;
                i = i + 1;
            } else if c == '~' {
                m.moved = true;
                i = i + 1;
            } else if ascii_letter(c) {
                proof {
                    lemma_letters_end(mask@, i as int);
                }
                let mut j: usize = i;
                while j < n && ascii_letter(mask.get_char(j))
                    invariant
                        i <= j <= n,
                        n == mask@.len(),
                        letters_end(mask@, i as int) == letters_end(mask@, j as int),
                    decreases n - j,
                {
                    j = j + 1;
                }
                proof {
                    reveal_strlit("add");
                    reveal_strlit("added");
                    reveal_strlit("remove");
                    reveal_strlit("removed");
                    reveal_strlit("update");
                    reveal_strlit("updated");
                    reveal_strlit("move");
                    reveal_strlit("moved");
                }
                let w_all = j - i == 3 && {
                    let c0 = mask.get_char(i);
                    let c1 = mask.get_char(i + 1);
                    let c2 = mask.get_char(i + 2);
                    (c0 == 'a' || c0 == 'A') && (c1 == 'l' || c1 == 'L') && (c2 == 'l' || c2 == 'L')
                };
                if w_all {
                    m = ChangeKindMask::all();
                } else if spells(mask, i, j, "add") || spells(mask, i, j, "added") {
                    m.added = true;
                } else if spells(mask, i, j, "remove") || spells(mask, i, j, "removed") {
                    m.removed = true;
                } else if spells(mask, i, j, "update") || spells(mask, i, j, "updated") {
                    m.updated = true;
                } else if spells(mask, i, j, "move") || spells(mask, i, j, "moved") {
                    m.moved = true;
                }
                if j < n {
                    i = j + 1;
                } else {
                    i = n;
                }
            } else {
                i = i + 1;
            }
        }
        m
    }

    /// Whether added things are watched.
    pub fn has_added(&self) -> (b: bool)
        ensures
            b == self.added,
    {
        self.added
    }

    /// Whether removed things are watched.
    pub fn has_removed(&self) -> (b: bool)
        ensures
            b == self.removed,
    {
        self.removed
    }

    /// Whether updated things are watched.
    pub fn has_updated(&self) -> (b: bool)
        ensures
            b == self.updated,
    {
        self.updated
    }

    /// Whether moved things are watched.
    pub fn has_moved(&self) -> (b: bool)
        ensures
            b == self.moved,
    {
        self.moved
    }
}

/// A watch on the model: the paths an expression selects, and the kinds
/// of change watched.
#[derive(Debug)]
pub struct ModelWatch {
    path: Opath,
    mask: ChangeKindMask,
}

impl ModelWatch {
    /// The watch on the paths `path` selects, for the kinds `mask` names.
    pub fn parse(path: &str, mask: &str) -> (w: ModelWatch)
        ensures
            w.path_v() == path@,
            w.mask_v() == mask_of(mask@),
    {
        ModelWatch { path: Opath::new(path), mask: ChangeKindMask::parse(mask) }
    }

    /// The expression, as a value.
    pub closed spec fn path_v(&self) -> Seq<char> {
        self.path@
    }

    /// The kinds watched, as a value.
    pub closed spec fn mask_v(&self) -> ChangeKindMask {
        self.mask
    }

    /// The expression selecting the watched paths.
    pub fn path(&self) -> (p: &Opath)
        ensures
            p@ == self.path_v(),
    {
        &self.path
    }

    /// The kinds of change watched.
    pub fn mask(&self) -> (m: ChangeKindMask)
        ensures
            m == self.mask_v(),
    {
        self.mask
    }
}

/// The most characters a glob may have: longer patterns are refused before
/// `globset` sees them, whose literal automata have a size limit that it
/// enforces by panicking.
pub open spec fn glob_len_ok(pattern: Seq<char>) -> bool {
    pattern.len() <= 0x100_0000
}

/// Whether `globset` builds a glob set from the glob `GlobBuilder` makes of
/// `pattern` with its default options.
pub uninterp spec fn glob_accepts(pattern: Seq<char>) -> bool;

/// Whether that glob set matches `path`; false where it does not build.
pub uninterp spec fn glob_matches(pattern: Seq<char>, path: Seq<char>) -> bool;

/// Whether a glob is used: short enough, and its glob set builds.
pub open spec fn glob_usable(pattern: Seq<char>) -> bool {
    glob_len_ok(pattern) && glob_accepts(pattern)
}

/// `globset::GlobBuilder::new(pattern).build()` added to a
/// `GlobSetBuilder`, and that set's `build()`: whether both succeed. Both
/// return their errors (the regex size limit included) instead of panicking.
#[verifier::external_body]
fn glob_builds(pattern: &str) -> (b: bool)
    requires
        glob_len_ok(pattern@),
    ensures
        b == glob_accepts(pattern@),
{
    match globset::GlobBuilder::new(pattern).build() {
        Ok(g) => globset::GlobSetBuilder::new().add(g).build().is_ok(),
        Err(_) => false,
    }
}

/// `GlobSet::is_match` of the glob set built as in `glob_builds`, applied to
/// `path`; false where no set is built.
#[verifier::external_body]
pub(crate) fn glob_is_match(pattern: &str, path: &str) -> (b: bool)
    requires
        glob_len_ok(pattern@),
    ensures
        b == glob_matches(pattern@, path@),
        b ==> glob_accepts(pattern@),
{
    match globset::GlobBuilder::new(pattern).build() {
        Ok(g) => match globset::GlobSetBuilder::new().add(g).build() {
            Ok(set) => set.is_match(path),
            Err(_) => false,
        },
        Err(_) => false,
    }
}

/// A watch on files: the paths a glob matches, and the kinds of change
/// watched.
#[derive(Debug)]
pub struct FileWatch {
    glob: String,
    mask: ChangeKindMask,
}

impl FileWatch {
    /// The glob, as a value.
    pub closed spec fn glob_v(&self) -> Seq<char> {
        self.glob@
    }

    /// The kinds watched, as a value.
    pub closed spec fn mask_v(&self) -> ChangeKindMask {
        self.mask
    }

    /// The invariant: the glob is short enough and builds.
    pub open spec fn wf(&self) -> bool {
        glob_usable(self.glob_v())
    }

    #[verifier::type_invariant]
    spec fn glob_is_usable(self) -> bool {
        glob_usable(self.glob@)
    }

    /// The watch on the files `glob` matches, for the kinds `mask` names;
    /// an error where the glob is too long or does not build (its glob set
    /// included, so that matching cannot fail later).
    pub fn parse(glob: &str, mask: &str) -> (r: Result<FileWatch, DefsError>)
        ensures
            match r {
                Ok(w) => glob_usable(glob@) && w.wf() && w.glob_v() == glob@ && w.mask_v() == mask_of(
                    mask@,
                ),
                Err(e) => !glob_usable(glob@) && e@ == seq![
                    crate::model::defs::DetailV::ProcFileWatchParse { glob: glob@ },
                ],
            },
    {
        if glob.unicode_len() > 0x100_0000 || !glob_builds(glob) {
            return Err(DefsError::new(DefsErrorDetail::ProcFileWatchParse { glob: to_owned_string(glob) }));
        }
        Ok(FileWatch { glob: to_owned_string(glob), mask: ChangeKindMask::parse(mask) })
    }

    /// The glob text.
    pub fn glob(&self) -> (g: &str)
        ensures
            g@ == self.glob_v(),
    {
        self.glob.as_str()
    }

    /// The kinds of change watched.
    pub fn mask(&self) -> (m: ChangeKindMask)
        ensures
            m == self.mask_v(),
    {
        self.mask
    }

    /// Whether the glob matches `path`.
    pub fn matches(&self, path: &str) -> (b: bool)
        ensures
            b == glob_matches(self.glob_v(), path@),
    {
        proof {
            use_type_invariant(self);
        }
        glob_is_match(self.glob.as_str(), path)
    }
}

} // verus!
