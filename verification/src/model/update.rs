//! Which changes between two versions of a model an updater procedure
//! reacts to: changes of the model at paths its watches select, and
//! changes of files its file watches match, each for the kinds of change
//! the watch names.
use vstd::prelude::*;
use crate::model::defs::procdef::{ProcDef, ProcKind};
use crate::model::defs::watch::{glob_matches, ChangeKind, ChangeKindMask, FileWatch};
use crate::text::str_equal;

verus! {

/// A change of the model or of a file: its kind, and the path before and
/// after it (the one before for a removal, the one after for an addition or
/// an update, both for a move).
#[derive(Debug)]
pub struct Change {
    pub kind: ChangeKind,
    pub old_path: Option<String>,
    pub new_path: Option<String>,
}

/// A change, as mathematics sees it.
pub struct ChangeV {
    pub kind: ChangeKind,
    pub old_path: Option<Seq<char>>,
    pub new_path: Option<Seq<char>>,
}

impl View for Change {
    type V = ChangeV;

    open spec fn view(&self) -> ChangeV {
        ChangeV {
            kind: self.kind,
            old_path: match self.old_path {
                Some(p) => Some(p@),
                None => None,
            },
            new_path: match self.new_path {
                Some(p) => Some(p@),
                None => None,
            },
        }
    }
}

/// Whether a change carries the paths its kind needs.
pub open spec fn change_wf(c: ChangeV) -> bool {
    &&& (c.kind == ChangeKind::Removed || c.kind == ChangeKind::Moved) ==> c.old_path is Some
    &&& (c.kind == ChangeKind::Added || c.kind == ChangeKind::Updated || c.kind == ChangeKind::Moved) ==> c.new_path is Some
}

/// What one model watch selects: the paths of the nodes its expression
/// selects in the model before (`old_paths`) and after (`new_paths`) the
/// change.
#[derive(Debug)]
pub struct WatchPaths {
    pub old_paths: Vec<String>,
    pub new_paths: Vec<String>,
}

/// What a model watch selects, as mathematics sees it.
pub struct WatchPathsV {
    pub old_paths: Seq<Seq<char>>,
    pub new_paths: Seq<Seq<char>>,
}

impl View for WatchPaths {
    type V = WatchPathsV;

    open spec fn view(&self) -> WatchPathsV {
        WatchPathsV {
            old_paths: Seq::new(self.old_paths@.len(), |i: int| self.old_paths@[i]@),
            new_paths: Seq::new(self.new_paths@.len(), |i: int| self.new_paths@[i]@),
        }
    }
}

/// Whether some model watch `mw[i]` with `kind` in its mask selects `p`
/// (by what `ws[i]` says it selects) before (`new` false) or after (`new`
/// true) the change.
pub open spec fn watched(
    mw: Seq<(Seq<char>, ChangeKindMask)>,
    ws: Seq<WatchPathsV>,
    kind: ChangeKind,
    new: bool,
    p: Seq<char>,
) -> bool {
    exists|i: int|
        0 <= i < ws.len() && i < mw.len() && mask_has(#[trigger] mw[i].1, kind) && (if new {
            ws[i].new_paths.contains(p)
        } else {
            ws[i].old_paths.contains(p)
        })
}

/// Whether `m` holds `kind`.
pub open spec fn mask_has(m: ChangeKindMask, kind: ChangeKind) -> bool {
    match kind {
        ChangeKind::Added => m.added,
        ChangeKind::Removed => m.removed,
        ChangeKind::Updated => m.updated,
        ChangeKind::Moved => m.moved,
    }
}

/// Whether the updater reacts to model change `c`: a removal whose old path,
/// an addition or update whose new path, or a move whose old or new path a
/// watch of that kind selects.
pub open spec fn model_change_selected(mw: Seq<(Seq<char>, ChangeKindMask)>, ws: Seq<WatchPathsV>, c: ChangeV) -> bool {
    match c.kind {
        ChangeKind::Removed => watched(mw, ws, ChangeKind::Removed, false, c.old_path->0),
        ChangeKind::Added => watched(mw, ws, ChangeKind::Added, true, c.new_path->0),
        ChangeKind::Updated => watched(mw, ws, ChangeKind::Updated, true, c.new_path->0),
        ChangeKind::Moved => watched(mw, ws, ChangeKind::Moved, false, c.old_path->0) || watched(
            mw,
            ws,
            ChangeKind::Moved,
            true,
            c.new_path->0,
        ),
    }
}

/// The indices of the model changes among `cs[0..k]` the updater reacts to,
/// in order.
pub open spec fn model_picks(
    mw: Seq<(Seq<char>, ChangeKindMask)>,
    ws: Seq<WatchPathsV>,
    cs: Seq<ChangeV>,
    k: int,
) -> Seq<usize>
    decreases k,
{
    if k <= 0 || k > cs.len() {
        Seq::empty()
    } else if model_change_selected(mw, ws, cs[k - 1]) {
        model_picks(mw, ws, cs, k - 1).push((k - 1) as usize)
    } else {
        model_picks(mw, ws, cs, k - 1)
    }
}

/// The path of a file change a file watch is matched against: the old one
/// for a removal or a move, the new one otherwise.
pub open spec fn file_change_path(c: ChangeV) -> Seq<char> {
    match c.kind {
        ChangeKind::Removed | ChangeKind::Moved => c.old_path->0,
        _ => c.new_path->0,
    }
}

/// How many of the file watches `fws[0..j]` (glob and kinds) react to file
/// change `c`.
pub open spec fn file_hits(fws: Seq<(Seq<char>, ChangeKindMask)>, c: ChangeV, j: int) -> nat
    decreases j,
{
    if j <= 0 || j > fws.len() {
        0
    } else if mask_has(fws[j - 1].1, c.kind) && glob_matches(fws[j - 1].0, file_change_path(c)) {
        file_hits(fws, c, j - 1) + 1
    } else {
        file_hits(fws, c, j - 1)
    }
}

/// The indices of the file changes among `cs[0..k]`, in order, each as
/// often as file watches react to it.
pub open spec fn file_picks(fws: Seq<(Seq<char>, ChangeKindMask)>, cs: Seq<ChangeV>, k: int) -> Seq<usize>
    decreases k,
{
    if k <= 0 || k > cs.len() {
        Seq::empty()
    } else {
        file_picks(fws, cs, k - 1) + Seq::new(file_hits(fws, cs[k - 1], fws.len() as int), |i: int| (k - 1) as usize)
    }
}

/// The changes between two versions of a model and of its files.
#[derive(Debug)]
pub struct ModelUpdate {
    model_changes: Vec<Change>,
    file_changes: Vec<Change>,
}

/// Whether `p` is one of `paths`.
fn contains_path(paths: &Vec<String>, p: &str) -> (b: bool)
    ensures
        b == Seq::new(paths@.len(), |i: int| paths@[i]@).contains(p@),
{
    let ghost v = Seq::new(paths@.len(), |i: int| paths@[i]@);
    let mut i: usize = 0;
    while i < paths.len()
        invariant
            i <= paths@.len(),
            v == Seq::new(paths@.len(), |i: int| paths@[i]@),
            forall|j: int| 0 <= j < i ==> v[j] != p@,
        decreases paths@.len() - i,
    {
        if str_equal(paths[i].as_str(), p) {
            assert(v[i as int] == p@);
            return true;
        }
        i = i + 1;
    }
    false
}

/// Whether some model watch of `u` with `kind` in its mask selects `p`,
/// by what `ws` says each of them selects.
fn is_watched(u: &ProcDef, ws: &Vec<WatchPaths>, kind: ChangeKind, new: bool, p: &str) -> (b: bool)
    requires
        ws@.len() == u@.model_watches.len(),
    ensures
        b == watched(u@.model_watches, Seq::new(ws@.len(), |i: int| ws@[i]@), kind, new, p@),
{
    let ghost wv = Seq::new(ws@.len(), |i: int| ws@[i]@);
    let ghost mw = u@.model_watches;
    let mws = u.model_watches();
    let mut i: usize = 0;
    while i < ws.len()
        invariant
            i <= ws@.len(),
            wv == Seq::new(ws@.len(), |i: int| ws@[i]@),
            mw == u@.model_watches,
            ws@.len() == mw.len(),
            mws@.len() == mw.len(),
            forall|j: int| 0 <= j < mws@.len() ==> mw[j] == (#[trigger] mws@[j].path_v(), mws@[j].mask_v()),
            forall|j: int|
                0 <= j < i ==> !(mask_has(#[trigger] mw[j].1, kind) && (if new {
                    wv[j].new_paths.contains(p@)
                } else {
                    wv[j].old_paths.contains(p@)
                })),
        decreases ws@.len() - i,
    {
        let w = &ws[i];
        let m = mws[i].mask();
        assert(mw[i as int] == (mws@[i as int].path_v(), mws@[i as int].mask_v()));
        let has = match kind {
            ChangeKind::Added => m.added,
            ChangeKind::Removed => m.removed,
            ChangeKind::Updated => m.updated,
            ChangeKind::Moved => m.moved,
        };
        assert(wv[i as int] == ws@[i as int]@);
        if has {
            let hit = if new {
                contains_path(&w.new_paths, p)
            } else {
                contains_path(&w.old_paths, p)
            };
            if hit {
                assert(mask_has(mw[i as int].1, kind));
                return true;
            }
        }
        i = i + 1;
    }
    false
}

/// Whether a mask holds a kind.
fn mask_holds(m: ChangeKindMask, kind: ChangeKind) -> (b: bool)
    ensures
        b == mask_has(m, kind),
{
    match kind {
        ChangeKind::Added => m.added,
        ChangeKind::Removed => m.removed,
        ChangeKind::Updated => m.updated,
        ChangeKind::Moved => m.moved,
    }
}

impl ModelUpdate {
    /// The changes `model_changes` of the model and `file_changes` of its files.
    pub fn new(model_changes: Vec<Change>, file_changes: Vec<Change>) -> (u: ModelUpdate)
        ensures
            u.model_changes_v() == Seq::new(model_changes@.len(), |i: int| model_changes@[i]@),
            u.file_changes_v() == Seq::new(file_changes@.len(), |i: int| file_changes@[i]@),
    {
        ModelUpdate { model_changes, file_changes }
    }

    /// The model changes, as values.
    pub closed spec fn model_changes_v(&self) -> Seq<ChangeV> {
        Seq::new(self.model_changes@.len(), |i: int| self.model_changes@[i]@)
    }

    /// The file changes, as values.
    pub closed spec fn file_changes_v(&self) -> Seq<ChangeV> {
        Seq::new(self.file_changes@.len(), |i: int| self.file_changes@[i]@)
    }

    /// The changes of the model.
    pub fn model_diff(&self) -> (c: &Vec<Change>)
        ensures
            Seq::new(c@.len(), |i: int| c@[i]@) == self.model_changes_v(),
    {
        &self.model_changes
    }

    /// The changes of the files.
    pub fn file_diff(&self) -> (c: &Vec<Change>)
        ensures
            Seq::new(c@.len(), |i: int| c@[i]@) == self.file_changes_v(),
    {
        &self.file_changes
    }

    /// The changes the updater `u` reacts to, given what each of its model
    /// watches selects (`watches`, one per model watch of `u`, in their
    /// order; the kinds each reacts to are those of the watch itself): the
    /// indices of the model changes it reacts to, and of the file changes,
    /// each file change once per file watch that reacts to it.
    pub fn check_updater(&self, u: &ProcDef, watches: &Vec<WatchPaths>) -> (r: (Vec<usize>, Vec<usize>))
        requires
            u@.kind == ProcKind::Update,
            watches@.len() == u@.model_watches.len(),
            forall|i: int| 0 <= i < self.model_changes_v().len() ==> change_wf(#[trigger] self.model_changes_v()[i]),
            forall|i: int| 0 <= i < self.file_changes_v().len() ==> change_wf(#[trigger] self.file_changes_v()[i]),
        ensures
            r.0@ == model_picks(
                u@.model_watches,
                Seq::new(watches@.len(), |i: int| watches@[i]@),
                self.model_changes_v(),
                self.model_changes_v().len() as int,
            ),
            r.1@ == file_picks(u@.file_watches, self.file_changes_v(), self.file_changes_v().len() as int),
    {
        let ghost wv = Seq::new(watches@.len(), |i: int| watches@[i]@);
        let ghost mcs = self.model_changes_v();
        let mut model: Vec<usize> = Vec::new();
        let mut k: usize = 0;
        while k < self.model_changes.len()
            invariant
                k <= self.model_changes@.len(),
                mcs == self.model_changes_v(),
                wv == Seq::new(watches@.len(), |i: int| watches@[i]@),
                watches@.len() == u@.model_watches.len(),
                forall|i: int| 0 <= i < mcs.len() ==> change_wf(#[trigger] mcs[i]),
                model@ == model_picks(u@.model_watches, wv, mcs, k as int),
            decreases self.model_changes@.len() - k,
        {
            let c = &self.model_changes[k];
            assert(mcs[k as int] == c@);
            assert(change_wf(mcs[k as int]));
            let selected = match c.kind {
                ChangeKind::Removed => is_watched(u, watches, ChangeKind::Removed, false, c.old_path.as_ref().unwrap().as_str()),
                ChangeKind::Added => is_watched(u, watches, ChangeKind::Added, true, c.new_path.as_ref().unwrap().as_str()),
                ChangeKind::Updated => is_watched(u, watches, ChangeKind::Updated, true, c.new_path.as_ref().unwrap().as_str()),
                ChangeKind::Moved => is_watched(u, watches, ChangeKind::Moved, false, c.old_path.as_ref().unwrap().as_str())
                    || is_watched(u, watches, ChangeKind::Moved, true, c.new_path.as_ref().unwrap().as_str()),
            };
            if selected {
                model.push(k);
            }
            k = k + 1;
        }
        let fws = u.file_watches();
        let ghost fv = u@.file_watches;
        let ghost fcs = self.file_changes_v();
        let mut files: Vec<usize> = Vec::new();
        let mut k: usize = 0;
        while k < self.file_changes.len()
            invariant
                k <= self.file_changes@.len(),
                fcs == self.file_changes_v(),
                fv == u@.file_watches,
                fws@.len() == fv.len(),
                forall|i: int| 0 <= i < fws@.len() ==> fv[i] == (#[trigger] fws@[i].glob_v(), fws@[i].mask_v()),
                forall|i: int| 0 <= i < fcs.len() ==> change_wf(#[trigger] fcs[i]),
                files@ == file_picks(fv, fcs, k as int),
            decreases self.file_changes@.len() - k,
        {
            let c = &self.file_changes[k];
            assert(fcs[k as int] == c@);
            assert(change_wf(fcs[k as int]));
            let path = match c.kind {
                ChangeKind::Removed | ChangeKind::Moved => c.old_path.as_ref().unwrap().as_str(),
                _ => c.new_path.as_ref().unwrap().as_str(),
            };
            let ghost before = files@;
            let mut j: usize = 0;
            while j < fws.len()
                invariant
                    j <= fws@.len(),
                    fws@.len() == fv.len(),
                    forall|i: int| 0 <= i < fws@.len() ==> fv[i] == (#[trigger] fws@[i].glob_v(), fws@[i].mask_v()),
                    k < fcs.len(),
                    fcs[k as int] == c@,
                    path@ == file_change_path(fcs[k as int]),
                    files@ == before + Seq::new(file_hits(fv, fcs[k as int], j as int), |i: int| k),
                decreases fws@.len() - j,
            {
                let w = &fws[j];
                assert(fv[j as int] == (w.glob_v(), w.mask_v()));
                if mask_holds(w.mask(), c.kind) && w.matches(path) {
                    files.push(k);
                }
                proof {
                    assert(files@ =~= before + Seq::new(file_hits(fv, fcs[k as int], j + 1), |i: int| k));
                }
                j = j + 1;
            }
            proof {
                assert(files@ =~= file_picks(fv, fcs, k + 1));
            }
            k = k + 1;
        }
        (model, files)
    }
}

/// The model changes an updater reacts to come in their order, each once,
/// and are exactly those some watch of their kind selects.
pub proof fn law_model_picks(mw: Seq<(Seq<char>, ChangeKindMask)>, ws: Seq<WatchPathsV>, cs: Seq<ChangeV>, k: int)
    requires
        0 <= k <= cs.len(),
        cs.len() <= usize::MAX,
    ensures
        forall|i: int, j: int|
            0 <= i < j < model_picks(mw, ws, cs, k).len() ==> #[trigger] model_picks(mw, ws, cs, k)[i] < #[trigger] model_picks(mw, ws, cs, k)[j],
        forall|n: usize| #[trigger] model_picks(mw, ws, cs, k).contains(n) <==> (n < k && model_change_selected(mw, ws, cs[n as int])),
    decreases k,
{
    if k > 0 {
        law_model_picks(mw, ws, cs, k - 1);
        let prev = model_picks(mw, ws, cs, k - 1);
        assert forall|n: usize| #[trigger] model_picks(mw, ws, cs, k).contains(n) <==> (n < k && model_change_selected(mw, ws, cs[n as int])) by {
            if model_change_selected(mw, ws, cs[k - 1]) {
                assert(model_picks(mw, ws, cs, k) == prev.push((k - 1) as usize));
                if n == (k - 1) as usize {
                    assert(model_picks(mw, ws, cs, k)[prev.len() as int] == n);
                }
                if model_picks(mw, ws, cs, k).contains(n) {
                    let i = choose|i: int| 0 <= i < model_picks(mw, ws, cs, k).len() && model_picks(mw, ws, cs, k)[i] == n;
                    if i < prev.len() {
                        assert(prev[i] == n);
                        assert(prev.contains(n));
                    }
                }
                if prev.contains(n) {
                    let i = choose|i: int| 0 <= i < prev.len() && prev[i] == n;
                    assert(model_picks(mw, ws, cs, k)[i] == n);
                }
            }
        }
        if model_change_selected(mw, ws, cs[k - 1]) {
            assert forall|i: int, j: int|
                0 <= i < j < model_picks(mw, ws, cs, k).len() implies #[trigger] model_picks(mw, ws, cs, k)[i] < #[trigger] model_picks(mw, ws, cs, k)[j] by {
                if j == prev.len() {
                    assert(prev.contains(prev[i]));
                }
            }
        }
    }
}

/// Which model changes an updater reacts to, kind by kind: a removal when a
/// watch that reacts to removals selected its old path in the model before;
/// an addition or an update when a watch that reacts to that kind selects its
/// new path in the model after; a move when a watch that reacts to moves
/// selected its old path before or selects its new path after.
pub proof fn law_model_change_kinds(
    mw: Seq<(Seq<char>, ChangeKindMask)>,
    ws: Seq<WatchPathsV>,
    cs: Seq<ChangeV>,
    n: int,
)
    requires
        0 <= n < cs.len(),
        cs.len() <= usize::MAX,
    ensures
        cs[n].kind == ChangeKind::Removed ==> (model_picks(mw, ws, cs, cs.len() as int).contains(n as usize)
            <==> exists|i: int| 0 <= i < ws.len() && i < mw.len() && (#[trigger] mw[i]).1.removed
                && ws[i].old_paths.contains(cs[n].old_path->0)),
        cs[n].kind == ChangeKind::Added ==> (model_picks(mw, ws, cs, cs.len() as int).contains(n as usize)
            <==> exists|i: int| 0 <= i < ws.len() && i < mw.len() && (#[trigger] mw[i]).1.added
                && ws[i].new_paths.contains(cs[n].new_path->0)),
        cs[n].kind == ChangeKind::Updated ==> (model_picks(mw, ws, cs, cs.len() as int).contains(n as usize)
            <==> exists|i: int| 0 <= i < ws.len() && i < mw.len() && (#[trigger] mw[i]).1.updated
                && ws[i].new_paths.contains(cs[n].new_path->0)),
        cs[n].kind == ChangeKind::Moved ==> (model_picks(mw, ws, cs, cs.len() as int).contains(n as usize)
            <==> exists|i: int| 0 <= i < ws.len() && i < mw.len() && (#[trigger] mw[i]).1.moved
                && (ws[i].old_paths.contains(cs[n].old_path->0) || ws[i].new_paths.contains(cs[n].new_path->0))),
{
    law_model_picks(mw, ws, cs, cs.len() as int);
    let c = cs[n];
    assert(model_picks(mw, ws, cs, cs.len() as int).contains(n as usize) <==> model_change_selected(mw, ws, c));
    if c.kind == ChangeKind::Moved {
        let old_p = c.old_path->0;
        let new_p = c.new_path->0;
        if model_change_selected(mw, ws, c) {
            if watched(mw, ws, ChangeKind::Moved, false, old_p) {
                let i = choose|i: int| 0 <= i < ws.len() && i < mw.len() && mask_has(#[trigger] mw[i].1, ChangeKind::Moved)
                    && ws[i].old_paths.contains(old_p);
                assert(mw[i].1.moved);
            } else {
                let i = choose|i: int| 0 <= i < ws.len() && i < mw.len() && mask_has(#[trigger] mw[i].1, ChangeKind::Moved)
                    && ws[i].new_paths.contains(new_p);
                assert(mw[i].1.moved);
            }
        }
        if exists|i: int| 0 <= i < ws.len() && i < mw.len() && (#[trigger] mw[i]).1.moved
            && (ws[i].old_paths.contains(old_p) || ws[i].new_paths.contains(new_p)) {
            let i = choose|i: int| 0 <= i < ws.len() && i < mw.len() && (#[trigger] mw[i]).1.moved
                && (ws[i].old_paths.contains(old_p) || ws[i].new_paths.contains(new_p));
            assert(mask_has(mw[i].1, ChangeKind::Moved));
            if ws[i].old_paths.contains(old_p) {
                assert(watched(mw, ws, ChangeKind::Moved, false, old_p));
            } else {
                assert(watched(mw, ws, ChangeKind::Moved, true, new_p));
            }
        }
    } else if c.kind == ChangeKind::Removed {
        if model_change_selected(mw, ws, c) {
            let i = choose|i: int| 0 <= i < ws.len() && i < mw.len() && mask_has(#[trigger] mw[i].1, ChangeKind::Removed)
                && ws[i].old_paths.contains(c.old_path->0);
            assert(mw[i].1.removed);
        }
        if exists|i: int| 0 <= i < ws.len() && i < mw.len() && (#[trigger] mw[i]).1.removed
            && ws[i].old_paths.contains(c.old_path->0) {
            let i = choose|i: int| 0 <= i < ws.len() && i < mw.len() && (#[trigger] mw[i]).1.removed
                && ws[i].old_paths.contains(c.old_path->0);
            assert(mask_has(mw[i].1, ChangeKind::Removed));
        }
    } else if c.kind == ChangeKind::Added {
        if model_change_selected(mw, ws, c) {
            let i = choose|i: int| 0 <= i < ws.len() && i < mw.len() && mask_has(#[trigger] mw[i].1, ChangeKind::Added)
                && ws[i].new_paths.contains(c.new_path->0);
            assert(mw[i].1.added);
        }
        if exists|i: int| 0 <= i < ws.len() && i < mw.len() && (#[trigger] mw[i]).1.added
            && ws[i].new_paths.contains(c.new_path->0) {
            let i = choose|i: int| 0 <= i < ws.len() && i < mw.len() && (#[trigger] mw[i]).1.added
                && ws[i].new_paths.contains(c.new_path->0);
            assert(mask_has(mw[i].1, ChangeKind::Added));
        }
    } else {
        if model_change_selected(mw, ws, c) {
            let i = choose|i: int| 0 <= i < ws.len() && i < mw.len() && mask_has(#[trigger] mw[i].1, ChangeKind::Updated)
                && ws[i].new_paths.contains(c.new_path->0);
            assert(mw[i].1.updated);
        }
        if exists|i: int| 0 <= i < ws.len() && i < mw.len() && (#[trigger] mw[i]).1.updated
            && ws[i].new_paths.contains(c.new_path->0) {
            let i = choose|i: int| 0 <= i < ws.len() && i < mw.len() && (#[trigger] mw[i]).1.updated
                && ws[i].new_paths.contains(c.new_path->0);
            assert(mask_has(mw[i].1, ChangeKind::Updated));
        }
    }
}

/// `file_hits` counts a watch among `fws[0..j]` exactly when it reacts.
proof fn lemma_file_hits(fws: Seq<(Seq<char>, ChangeKindMask)>, c: ChangeV, j: int)
    requires
        0 <= j <= fws.len(),
    ensures
        file_hits(fws, c, j) > 0 <==> exists|t: int| 0 <= t < j && mask_has(#[trigger] fws[t].1, c.kind)
            && glob_matches(fws[t].0, file_change_path(c)),
    decreases j,
{
    if j > 0 {
        lemma_file_hits(fws, c, j - 1);
        if file_hits(fws, c, j) > 0 && !(mask_has(fws[j - 1].1, c.kind) && glob_matches(fws[j - 1].0, file_change_path(c))) {
            let t = choose|t: int| 0 <= t < j - 1 && mask_has(#[trigger] fws[t].1, c.kind)
                && glob_matches(fws[t].0, file_change_path(c));
            assert(0 <= t < j);
        }
        if exists|t: int| 0 <= t < j && mask_has(#[trigger] fws[t].1, c.kind) && glob_matches(fws[t].0, file_change_path(c)) {
            let t = choose|t: int| 0 <= t < j && mask_has(#[trigger] fws[t].1, c.kind)
                && glob_matches(fws[t].0, file_change_path(c));
            if t < j - 1 {
                assert(file_hits(fws, c, j - 1) > 0);
            }
        }
    }
}

/// A file change is among the first `k` picks exactly when some file watch
/// reacts to it.
proof fn lemma_file_picks(fws: Seq<(Seq<char>, ChangeKindMask)>, cs: Seq<ChangeV>, k: int, n: int)
    requires
        0 <= k <= cs.len(),
        cs.len() <= usize::MAX,
        0 <= n < cs.len(),
    ensures
        file_picks(fws, cs, k).contains(n as usize) <==> (n < k && file_hits(fws, cs[n], fws.len() as int) > 0),
    decreases k,
{
    if k > 0 {
        lemma_file_picks(fws, cs, k - 1, n);
        let prev = file_picks(fws, cs, k - 1);
        let h = file_hits(fws, cs[k - 1], fws.len() as int);
        let add = Seq::new(h, |i: int| (k - 1) as usize);
        assert(file_picks(fws, cs, k) == prev + add);
        if file_picks(fws, cs, k).contains(n as usize) {
            let i = choose|i: int| 0 <= i < (prev + add).len() && (prev + add)[i] == n as usize;
            if i < prev.len() {
                assert(prev[i] == n as usize);
                assert(prev.contains(n as usize));
            } else {
                assert(add[i - prev.len()] == (k - 1) as usize);
                assert(n == k - 1);
            }
        }
        if n < k && file_hits(fws, cs[n], fws.len() as int) > 0 {
            if n < k - 1 {
                let i = choose|i: int| 0 <= i < prev.len() && prev[i] == n as usize;
                assert((prev + add)[i] == n as usize);
            } else {
                assert((prev + add)[prev.len() as int] == n as usize);
            }
        }
    }
}

/// Which file changes an updater reacts to: a change exactly when a file
/// watch that reacts to its kind has a glob matching its old path, for a
/// removal or a move, or its new path, for an addition or an update.
pub proof fn law_file_change_kinds(fws: Seq<(Seq<char>, ChangeKindMask)>, cs: Seq<ChangeV>, n: int)
    requires
        0 <= n < cs.len(),
        cs.len() <= usize::MAX,
    ensures
        cs[n].kind == ChangeKind::Removed ==> (file_picks(fws, cs, cs.len() as int).contains(n as usize)
            <==> exists|j: int| 0 <= j < fws.len() && (#[trigger] fws[j]).1.removed && glob_matches(fws[j].0, cs[n].old_path->0)),
        cs[n].kind == ChangeKind::Moved ==> (file_picks(fws, cs, cs.len() as int).contains(n as usize)
            <==> exists|j: int| 0 <= j < fws.len() && (#[trigger] fws[j]).1.moved && glob_matches(fws[j].0, cs[n].old_path->0)),
        cs[n].kind == ChangeKind::Added ==> (file_picks(fws, cs, cs.len() as int).contains(n as usize)
            <==> exists|j: int| 0 <= j < fws.len() && (#[trigger] fws[j]).1.added && glob_matches(fws[j].0, cs[n].new_path->0)),
        cs[n].kind == ChangeKind::Updated ==> (file_picks(fws, cs, cs.len() as int).contains(n as usize)
            <==> exists|j: int| 0 <= j < fws.len() && (#[trigger] fws[j]).1.updated && glob_matches(fws[j].0, cs[n].new_path->0)),
{
    lemma_file_picks(fws, cs, cs.len() as int, n);
    lemma_file_hits(fws, cs[n], fws.len() as int);
    let c = cs[n];
    if exists|t: int| 0 <= t < fws.len() && mask_has(#[trigger] fws[t].1, c.kind) && glob_matches(fws[t].0, file_change_path(c)) {
        let t = choose|t: int| 0 <= t < fws.len() && mask_has(#[trigger] fws[t].1, c.kind)
            && glob_matches(fws[t].0, file_change_path(c));
        assert(fws[t] == fws[t]);
    }
    if c.kind == ChangeKind::Removed && exists|j: int| 0 <= j < fws.len() && (#[trigger] fws[j]).1.removed && glob_matches(fws[j].0, c.old_path->0) {
        let j = choose|j: int| 0 <= j < fws.len() && (#[trigger] fws[j]).1.removed && glob_matches(fws[j].0, c.old_path->0);
        assert(mask_has(fws[j].1, c.kind));
    }
    if c.kind == ChangeKind::Moved && exists|j: int| 0 <= j < fws.len() && (#[trigger] fws[j]).1.moved && glob_matches(fws[j].0, c.old_path->0) {
        let j = choose|j: int| 0 <= j < fws.len() && (#[trigger] fws[j]).1.moved && glob_matches(fws[j].0, c.old_path->0);
        assert(mask_has(fws[j].1, c.kind));
    }
    if c.kind == ChangeKind::Added && exists|j: int| 0 <= j < fws.len() && (#[trigger] fws[j]).1.added && glob_matches(fws[j].0, c.new_path->0) {
        let j = choose|j: int| 0 <= j < fws.len() && (#[trigger] fws[j]).1.added && glob_matches(fws[j].0, c.new_path->0);
        assert(mask_has(fws[j].1, c.kind));
    }
    if c.kind == ChangeKind::Updated && exists|j: int| 0 <= j < fws.len() && (#[trigger] fws[j]).1.updated && glob_matches(fws[j].0, c.new_path->0) {
        let j = choose|j: int| 0 <= j < fws.len() && (#[trigger] fws[j]).1.updated && glob_matches(fws[j].0, c.new_path->0);
        assert(mask_has(fws[j].1, c.kind));
    }
}

/// Whether file watch `w` reacts to file change `c`.
spec fn reacts(c: ChangeV) -> spec_fn((Seq<char>, ChangeKindMask)) -> bool {
    |w: (Seq<char>, ChangeKindMask)| mask_has(w.1, c.kind) && glob_matches(w.0, file_change_path(c))
}

/// Whether a pick is `t`.
spec fn is_pick(t: usize) -> spec_fn(usize) -> bool {
    |x: usize| x == t
}

/// `file_hits` counts the watches among `fws[0..j]` that react.
proof fn lemma_file_hits_count(fws: Seq<(Seq<char>, ChangeKindMask)>, c: ChangeV, j: int)
    requires
        0 <= j <= fws.len(),
    ensures
        file_hits(fws, c, j) == fws.take(j).filter(reacts(c)).len(),
    decreases j,
{
    if j > 0 {
        lemma_file_hits_count(fws, c, j - 1);
        reveal(Seq::filter);
        let s = fws.take(j);
        let p = reacts(c);
        assert(s.drop_last() =~= fws.take(j - 1));
        assert(s.last() == fws[j - 1]);
        assert(s.filter(p) == (if p(s.last()) { s.drop_last().filter(p).push(s.last()) } else { s.drop_last().filter(p) }));
        assert(p(fws[j - 1]) == (mask_has(fws[j - 1].1, c.kind) && glob_matches(fws[j - 1].0, file_change_path(c))));
    } else {
        reveal(Seq::filter);
        assert(fws.take(0) =~= Seq::<(Seq<char>, ChangeKindMask)>::empty());
    }
}

/// A run of `h` copies of `m` holds `t` `h` times when `m` is `t`, else never.
proof fn lemma_run_count(h: nat, m: usize, t: usize)
    ensures
        Seq::new(h, |i: int| m).filter(is_pick(t)).len() == if m == t { h } else { 0 },
    decreases h,
{
    if h > 0 {
        lemma_run_count((h - 1) as nat, m, t);
        reveal(Seq::filter);
        let s = Seq::new(h, |i: int| m);
        let p = is_pick(t);
        assert(s.drop_last() =~= Seq::new((h - 1) as nat, |i: int| m));
        assert(s.last() == m);
        assert(s.filter(p) == (if p(s.last()) { s.drop_last().filter(p).push(s.last()) } else { s.drop_last().filter(p) }));
        assert(p(m) == (m == t));
    }
}

/// How often change `n` is among the first `k` picks.
proof fn lemma_file_picks_count(fws: Seq<(Seq<char>, ChangeKindMask)>, cs: Seq<ChangeV>, k: int, n: int)
    requires
        0 <= k <= cs.len(),
        cs.len() <= usize::MAX,
        0 <= n < cs.len(),
    ensures
        file_picks(fws, cs, k).filter(is_pick(n as usize)).len() == if n < k { file_hits(fws, cs[n], fws.len() as int) } else { 0 },
    decreases k,
{
    if k > 0 {
        lemma_file_picks_count(fws, cs, k - 1, n);
        let prev = file_picks(fws, cs, k - 1);
        let h = file_hits(fws, cs[k - 1], fws.len() as int);
        let add = Seq::new(h, |i: int| (k - 1) as usize);
        Seq::filter_distributes_over_add(prev, add, is_pick(n as usize));
        lemma_run_count(h, (k - 1) as usize, n as usize);
    } else {
        reveal(Seq::filter);
        assert(file_picks(fws, cs, 0) =~= Seq::<usize>::empty());
    }
}

/// A file change is picked once for every file watch that reacts to it: a
/// watch that reacts to the change's kind and whose glob matches its old
/// path, for a removal or a move, or its new path, for an addition or an
/// update.
pub proof fn law_file_change_count(fws: Seq<(Seq<char>, ChangeKindMask)>, cs: Seq<ChangeV>, n: int)
    requires
        0 <= n < cs.len(),
        cs.len() <= usize::MAX,
    ensures
        file_picks(fws, cs, cs.len() as int).filter(|x: usize| x == n as usize).len() == fws.filter(
            |w: (Seq<char>, ChangeKindMask)|
                (match cs[n].kind {
                    ChangeKind::Added => w.1.added,
                    ChangeKind::Removed => w.1.removed,
                    ChangeKind::Updated => w.1.updated,
                    ChangeKind::Moved => w.1.moved,
                }) && glob_matches(
                    w.0,
                    if cs[n].kind == ChangeKind::Removed || cs[n].kind == ChangeKind::Moved {
                        cs[n].old_path->0
                    } else {
                        cs[n].new_path->0
                    },
                ),
        ).len(),
{
    lemma_file_picks_count(fws, cs, cs.len() as int, n);
    lemma_file_hits_count(fws, cs[n], fws.len() as int);
    assert(fws.take(fws.len() as int) =~= fws);
    let p = |w: (Seq<char>, ChangeKindMask)|
        (match cs[n].kind {
            ChangeKind::Added => w.1.added,
            ChangeKind::Removed => w.1.removed,
            ChangeKind::Updated => w.1.updated,
            ChangeKind::Moved => w.1.moved,
        }) && glob_matches(
            w.0,
            if cs[n].kind == ChangeKind::Removed || cs[n].kind == ChangeKind::Moved {
                cs[n].old_path->0
            } else {
                cs[n].new_path->0
            },
        );
    assert(p =~= reacts(cs[n]));
    assert((|x: usize| x == n as usize) =~= is_pick(n as usize));
}

} // verus!
