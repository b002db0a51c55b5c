//! Definitions read from the model tree: variables of a scope, hosts,
//! users, procedures with their steps and tasks, and what updaters watch.
//!
//! Expressions of the model's path language (opath) are kept as text: the
//! parsers here take any text where an expression goes and never report an
//! error for its syntax. Checking that syntax belongs to the expression
//! language's own parser, which is not part of this library.
pub mod watch;
pub mod procdef;

use vstd::prelude::*;
use crate::model::node::{child_of, first_true_text, prop_text, Kind, Node, NodeV, Value, ValueV,
    first_true_prop_text, prop_text_of, props_view, lemma_props_view};
use crate::text::{trim, trimmed, to_owned_string, str_equal};

verus! {

/// What can be wrong with a definition.
#[derive(Debug)]
pub enum DefsErrorDetail {
    HostMissingHostname,
    HostMissingSshDest,
    HostNonObject { kind: Kind },
    ProcMissingProc,
    ProcWatchNonObject { kind: Kind },
    ProcModelWatchParse,
    ProcFileWatchParse { glob: String },
    StepStaticHosts,
    StepMissingTasks,
    TaskMissingTask,
    TaskSwitchMissingCases,
    UnexpectedPropType { kind: Kind, expected: Vec<Kind> },
    EnvParse,
    SwitchParse,
    OutputParse,
    RunParse,
    StepParse { step: String },
    EnvPropParseErr { prop: String },
    TaskSwitchNonArray { kind: Kind },
    TaskCaseStaticWhen,
    TaskCaseMissingWhen,
    TaskCaseNonObject { kind: Kind },
    ScopeNonObject { kind: Kind },
    ScopeValParse { key: String },
    UserMissingUsername,
    UserNonObject { kind: Kind },
    UnknownProcKind { value: String },
    UnknownTaskKind { value: String },
    OpathParse,
    PropParse { prop: String },
    ExprErr,
}

/// An error detail, as mathematics sees it.
pub enum DetailV {
    HostMissingHostname,
    HostMissingSshDest,
    HostNonObject { kind: Kind },
    ProcMissingProc,
    ProcWatchNonObject { kind: Kind },
    ProcModelWatchParse,
    ProcFileWatchParse { glob: Seq<char> },
    StepStaticHosts,
    StepMissingTasks,
    TaskMissingTask,
    TaskSwitchMissingCases,
    UnexpectedPropType { kind: Kind, expected: Seq<Kind> },
    EnvParse,
    SwitchParse,
    OutputParse,
    RunParse,
    StepParse { step: Seq<char> },
    EnvPropParseErr { prop: Seq<char> },
    TaskSwitchNonArray { kind: Kind },
    TaskCaseStaticWhen,
    TaskCaseMissingWhen,
    TaskCaseNonObject { kind: Kind },
    ScopeNonObject { kind: Kind },
    ScopeValParse { key: Seq<char> },
    UserMissingUsername,
    UserNonObject { kind: Kind },
    UnknownProcKind { value: Seq<char> },
    UnknownTaskKind { value: Seq<char> },
    OpathParse,
    PropParse { prop: Seq<char> },
    ExprErr,
}

impl View for DefsErrorDetail {
    type V = DetailV;

    open spec fn view(&self) -> DetailV {
        match self {
            DefsErrorDetail::HostMissingHostname => DetailV::HostMissingHostname,
            DefsErrorDetail::HostMissingSshDest => DetailV::HostMissingSshDest,
            DefsErrorDetail::HostNonObject { kind } => DetailV::HostNonObject { kind: *kind },
            DefsErrorDetail::ProcMissingProc => DetailV::ProcMissingProc,
            DefsErrorDetail::ProcWatchNonObject { kind } => DetailV::ProcWatchNonObject { kind: *kind },
            DefsErrorDetail::ProcModelWatchParse => DetailV::ProcModelWatchParse,
            DefsErrorDetail::ProcFileWatchParse { glob } => DetailV::ProcFileWatchParse { glob: glob@ },
            DefsErrorDetail::StepStaticHosts => DetailV::StepStaticHosts,
            DefsErrorDetail::StepMissingTasks => DetailV::StepMissingTasks,
            DefsErrorDetail::TaskMissingTask => DetailV::TaskMissingTask,
            DefsErrorDetail::TaskSwitchMissingCases => DetailV::TaskSwitchMissingCases,
            DefsErrorDetail::UnexpectedPropType { kind, expected } => DetailV::UnexpectedPropType {
                kind: *kind,
                expected: expected@,
            },
            DefsErrorDetail::EnvParse => DetailV::EnvParse,
            DefsErrorDetail::SwitchParse => DetailV::SwitchParse,
            DefsErrorDetail::OutputParse => DetailV::OutputParse,
            DefsErrorDetail::RunParse => DetailV::RunParse,
            DefsErrorDetail::StepParse { step } => DetailV::StepParse { step: step@ },
            DefsErrorDetail::EnvPropParseErr { prop } => DetailV::EnvPropParseErr { prop: prop@ },
            DefsErrorDetail::TaskSwitchNonArray { kind } => DetailV::TaskSwitchNonArray { kind: *kind },
            DefsErrorDetail::TaskCaseStaticWhen => DetailV::TaskCaseStaticWhen,
            DefsErrorDetail::TaskCaseMissingWhen => DetailV::TaskCaseMissingWhen,
            DefsErrorDetail::TaskCaseNonObject { kind } => DetailV::TaskCaseNonObject { kind: *kind },
            DefsErrorDetail::ScopeNonObject { kind } => DetailV::ScopeNonObject { kind: *kind },
            DefsErrorDetail::ScopeValParse { key } => DetailV::ScopeValParse { key: key@ },
            DefsErrorDetail::UserMissingUsername => DetailV::UserMissingUsername,
            DefsErrorDetail::UserNonObject { kind } => DetailV::UserNonObject { kind: *kind },
            DefsErrorDetail::UnknownProcKind { value } => DetailV::UnknownProcKind { value: value@ },
            DefsErrorDetail::UnknownTaskKind { value } => DetailV::UnknownTaskKind { value: value@ },
            DefsErrorDetail::OpathParse => DetailV::OpathParse,
            DefsErrorDetail::PropParse { prop } => DetailV::PropParse { prop: prop@ },
            DefsErrorDetail::ExprErr => DetailV::ExprErr,
        }
    }
}

/// A definition error: what is wrong, and the error it arose from.
#[derive(Debug)]
pub struct DefsError {
    pub detail: DefsErrorDetail,
    pub cause: Option<Box<DefsError>>,
}

/// The chain of details of an error, the outermost first.
pub open spec fn error_chain(e: DefsError) -> Seq<DetailV>
    decreases e,
{
    match e.cause {
        Some(c) => seq![e.detail@] + error_chain(*c),
        None => seq![e.detail@],
    }
}

impl View for DefsError {
    type V = Seq<DetailV>;

    open spec fn view(&self) -> Seq<DetailV> {
        error_chain(*self)
    }
}

impl DefsError {
    /// An error with no cause.
    pub fn new(detail: DefsErrorDetail) -> (e: DefsError)
        ensures
            e@ == seq![detail@],
    {
        DefsError { detail, cause: None }
    }

    /// An error that arose from `cause`.
    pub fn with_cause(detail: DefsErrorDetail, cause: DefsError) -> (e: DefsError)
        ensures
            e@ == seq![detail@] + cause@,
    {
        DefsError { detail, cause: Some(Box::new(cause)) }
    }
}

/// An expression of the model's path language, held as its text. Its syntax
/// is not checked: any text is kept as it is given.
#[derive(Debug)]
pub struct Opath {
    pub expr: String,
}

impl View for Opath {
    type V = Seq<char>;

    open spec fn view(&self) -> Seq<char> {
        self.expr@
    }
}

/// `s` with the delimiters `open` and `close` taken off where it starts with
/// the one and ends with the other (and is long enough to hold both).
pub open spec fn strip_delims(s: Seq<char>, open: Seq<char>, close: Seq<char>) -> Seq<char> {
    if s.len() >= open.len() + close.len() && s.take(open.len() as int) == open && s.skip(
        s.len() - close.len(),
    ) == close {
        s.subrange(open.len() as int, s.len() - close.len())
    } else {
        s
    }
}

/// The text of `s` from `start` to `end`, `start <= end <= s@.len()`.
pub fn substring(s: &str, start: usize, end: usize) -> (r: String)
    requires
        start <= end <= s@.len(),
    ensures
        r@ == s@.subrange(start as int, end as int),
{
    let mut r = String::new();
    let mut i = start;
    while i < end
        invariant
            start <= i <= end <= s@.len(),
            r@ == s@.subrange(start as int, i as int),
        decreases end - i,
    {
        crate::text::push_char(&mut r, s.get_char(i));
        assert(s@.subrange(start as int, i + 1) =~= s@.subrange(start as int, i as int).push(s@[i as int]));
        i = i + 1;
    }
    r
}

/// Whether `s` starts with `p`.
pub fn starts_with(s: &str, p: &str) -> (b: bool)
    ensures
        b == (s@.len() >= p@.len() && s@.take(p@.len() as int) == p@),
{
    let n = s.unicode_len();
    let m = p.unicode_len();
    if m > n {
        return false;
    }
    let mut i: usize = 0;
    while i < m
        invariant
            n == s@.len(),
            m == p@.len(),
            m <= n,
            i <= m,
            forall|j: int| 0 <= j < i ==> s@[j] == p@[j],
        decreases m - i,
    {
        if s.get_char(i) != p.get_char(i) {
            assert(s@.take(m as int)[i as int] != p@[i as int]);
            return false;
        }
        i = i + 1;
    }
    assert(s@.take(m as int) =~= p@);
    true
}

/// Whether `s` ends with `p`.
pub fn ends_with(s: &str, p: &str) -> (b: bool)
    ensures
        b == (s@.len() >= p@.len() && s@.skip(s@.len() - p@.len()) == p@),
{
    let n = s.unicode_len();
    let m = p.unicode_len();
    if m > n {
        return false;
    }
    let off = n - m;
    let mut i: usize = 0;
    while i < m
        invariant
            n == s@.len(),
            m == p@.len(),
            off == n - m,
            i <= m,
            forall|j: int| 0 <= j < i ==> s@[off + j] == p@[j],
        decreases m - i,
    {
        if s.get_char(off + i) != p.get_char(i) {
            assert(s@.skip(off as int)[i as int] != p@[i as int]);
            return false;
        }
        i = i + 1;
    }
    assert(s@.skip(off as int) =~= p@);
    true
}

impl Opath {
    /// The expression with text `expr`.
    pub fn new(expr: &str) -> (o: Opath)
        ensures
            o@ == expr@,
    {
        Opath { expr: to_owned_string(expr) }
    }

    /// The expression written in `expr`, trimmed, between the delimiters
    /// `open` and `close` where it stands between them. It never fails: the
    /// text is not checked to be a valid expression.
    pub fn parse_opt_delims(expr: &str, open: &str, close: &str) -> (o: Opath)
        ensures
            o@ == strip_delims(trimmed(expr@), open@, close@),
    {
        let t = trim(expr);
        let n = t.unicode_len();
        let a = open.unicode_len();
        let b = close.unicode_len();
        if a <= n && b <= n - a && starts_with(t, open) && ends_with(t, close) {
            Opath { expr: substring(t, a, n - b) }
        } else {
            Opath { expr: to_owned_string(t) }
        }
    }

    /// A copy of the expression.
    pub fn duplicate(&self) -> (o: Opath)
        ensures
            o@ == self@,
    {
        Opath { expr: self.expr.clone() }
    }
}

/// A variable's definition: a fixed value, or an expression to evaluate.
#[derive(Debug)]
pub enum ValueDef {
    Static(Node),
    Resolvable(Opath),
}

/// A variable's definition, as mathematics sees it.
pub enum ValueDefV {
    Static(NodeV),
    Resolvable(Seq<char>),
}

impl View for ValueDef {
    type V = ValueDefV;

    open spec fn view(&self) -> ValueDefV {
        match self {
            ValueDef::Static(n) => ValueDefV::Static(n@),
            ValueDef::Resolvable(o) => ValueDefV::Resolvable(o@),
        }
    }
}

/// The definition a node gives: a string that, trimmed, reads `${...}` is
/// the expression between the braces; anything else is a fixed value.
pub open spec fn value_def_of(n: NodeV) -> ValueDefV {
    match n.value {
        ValueV::String(s) => {
            let t = trimmed(s);
            if t.len() >= 3 && t.take(2) == "${"@ && t.last() == '}' {
                ValueDefV::Resolvable(t.subrange(2, t.len() - 1))
            } else {
                ValueDefV::Static(n)
            }
        },
        _ => ValueDefV::Static(n),
    }
}

impl ValueDef {
    /// The definition `node` gives. The expression's syntax is checked
    /// where it is compiled, not here.
    pub fn parse(node: &Node) -> (d: ValueDef)
        ensures
            d@ == value_def_of(node@),
    {
        match &node.value {
            Value::String(s) => {
                let t = trim(s.as_str());
                let n = t.unicode_len();
                if n >= 3 && starts_with(t, "${") && ends_with(t, "}") {
                    proof {
                        reveal_strlit("${");
                        reveal_strlit("}");
                        assert(t@.skip(n - 1)[0] == t@.last());
                    }
                    ValueDef::Resolvable(Opath { expr: substring(t, 2, n - 1) })
                } else {
                    proof {
                        reveal_strlit("${");
                        reveal_strlit("}");
                        if n >= 3 && t@.take(2) == "${"@ && t@.last() == '}' {
                            assert(t@.skip(n - 1) =~= "}"@);
                        }
                    }
                    ValueDef::Static(node.deep_copy())
                }
            },
            _ => ValueDef::Static(node.deep_copy()),
        }
    }

    /// Whether the definition is a fixed value.
    pub fn is_static(&self) -> (b: bool)
        ensures
            b == (self@ is Static),
    {
        match self {
            ValueDef::Static(_) => true,
            ValueDef::Resolvable(_) => false,
        }
    }
}

/// A scope's variable definitions after defining `key` as `v`: a variable
/// defined already gets the new definition and moves to the end.
pub open spec fn scope_insert(s: Seq<(Seq<char>, ValueDefV)>, key: Seq<char>, v: ValueDefV) -> Seq<
    (Seq<char>, ValueDefV),
> {
    if exists|i: int| 0 <= i < s.len() && #[trigger] s[i].0 == key {
        let i = choose|i: int| 0 <= i < s.len() && #[trigger] s[i].0 == key;
        s.remove(i).push((key, v))
    } else {
        s.push((key, v))
    }
}

/// Reading a variable after defining it gives the new definition: after
/// `key` is defined as `v`, `key` is defined, every definition named `key`
/// is `v`, and every other variable keeps its definition.
pub proof fn law_scope_read_after_write(s: Seq<(Seq<char>, ValueDefV)>, key: Seq<char>, v: ValueDefV)
    requires
        distinct_names(s),
    ensures
        exists|i: int| 0 <= i < scope_insert(s, key, v).len() && #[trigger] scope_insert(s, key, v)[i].0 == key,
        forall|i: int| 0 <= i < scope_insert(s, key, v).len() && #[trigger] scope_insert(s, key, v)[i].0 == key
            ==> scope_insert(s, key, v)[i].1 == v,
        forall|e: (Seq<char>, ValueDefV)| e.0 != key ==> (#[trigger] s.contains(e) <==> scope_insert(s, key, v).contains(e)),
{
    let r = scope_insert(s, key, v);
    assert(r[r.len() - 1].0 == key);
    if exists|i: int| 0 <= i < s.len() && #[trigger] s[i].0 == key {
        let k = choose|i: int| 0 <= i < s.len() && #[trigger] s[i].0 == key;
        assert(r == s.remove(k).push((key, v)));
        assert forall|i: int| 0 <= i < r.len() && #[trigger] r[i].0 == key implies r[i].1 == v by {
            if i < r.len() - 1 {
                if i < k {
                    assert(r[i] == s[i]);
                } else {
                    assert(r[i] == s[i + 1]);
                }
            }
        }
        assert forall|e: (Seq<char>, ValueDefV)| e.0 != key implies (#[trigger] s.contains(e) <==> r.contains(e)) by {
            if s.contains(e) {
                let j = choose|j: int| 0 <= j < s.len() && s[j] == e;
                if j < k {
                    assert(r[j] == e);
                } else {
                    assert(j != k);
                    assert(r[j - 1] == e);
                }
            }
            if r.contains(e) {
                let j = choose|j: int| 0 <= j < r.len() && r[j] == e;
                if j < k {
                    assert(s[j] == e);
                } else {
                    assert(s[j + 1] == e);
                }
            }
        }
    } else {
        assert(r == s.push((key, v)));
        assert forall|i: int| 0 <= i < r.len() && #[trigger] r[i].0 == key implies r[i].1 == v by {
            if i < r.len() - 1 {
                assert(r[i] == s[i]);
            }
        }
        assert forall|e: (Seq<char>, ValueDefV)| e.0 != key implies (#[trigger] s.contains(e) <==> r.contains(e)) by {
            if s.contains(e) {
                let j = choose|j: int| 0 <= j < s.len() && s[j] == e;
                assert(r[j] == e);
            }
            if r.contains(e) {
                let j = choose|j: int| 0 <= j < r.len() && r[j] == e;
                assert(s[j] == e);
            }
        }
    }
}

/// Defining `key` keeps names distinct, adds `key` to the names, and grows
/// the definitions by one only for a new name.
proof fn lemma_scope_insert(s: Seq<(Seq<char>, ValueDefV)>, key: Seq<char>, v: ValueDefV)
    requires
        distinct_names(s),
    ensures
        distinct_names(scope_insert(s, key, v)),
        scope_insert(s, key, v).len() == if has_name(s, key) { s.len() } else { s.len() + 1 },
        forall|x: Seq<char>| #[trigger] has_name(scope_insert(s, key, v), x) <==> (x == key || has_name(s, x)),
{
    let r = scope_insert(s, key, v);
    if exists|i: int| 0 <= i < s.len() && #[trigger] s[i].0 == key {
        let k = choose|i: int| 0 <= i < s.len() && #[trigger] s[i].0 == key;
        assert(r == s.remove(k).push((key, v)));
        assert(has_name(s, key));
        assert forall|a: int, b: int| 0 <= a < b < r.len() implies #[trigger] r[a].0 != #[trigger] r[b].0 by {
            let ia = if a < k { a } else { a + 1 };
            assert(r[a] == s[ia]);
            if b == r.len() - 1 {
                assert(s[ia].0 != s[k].0);
            } else {
                let ib = if b < k { b } else { b + 1 };
                assert(r[b] == s[ib]);
            }
        }
        assert forall|x: Seq<char>| #[trigger] has_name(r, x) <==> (x == key || has_name(s, x)) by {
            if has_name(r, x) {
                let i = choose|i: int| 0 <= i < r.len() && r[i].0 == x;
                if i < r.len() - 1 {
                    let ii = if i < k { i } else { i + 1 };
                    assert(r[i] == s[ii]);
                }
            }
            if x == key {
                assert(r[r.len() - 1].0 == key);
            } else if has_name(s, x) {
                let j = choose|j: int| 0 <= j < s.len() && s[j].0 == x;
                assert(j != k);
                if j < k {
                    assert(r[j] == s[j]);
                } else {
                    assert(r[j - 1] == s[j]);
                }
            }
        }
    } else {
        assert(r == s.push((key, v)));
        assert(!has_name(s, key));
        assert forall|x: Seq<char>| #[trigger] has_name(r, x) <==> (x == key || has_name(s, x)) by {
            if has_name(r, x) {
                let i = choose|i: int| 0 <= i < r.len() && r[i].0 == x;
                if i < r.len() - 1 {
                    assert(r[i] == s[i]);
                }
            }
            if x == key {
                assert(r[r.len() - 1].0 == key);
            } else if has_name(s, x) {
                let j = choose|j: int| 0 <= j < s.len() && s[j].0 == x;
                assert(r[j] == s[j]);
            }
        }
        assert forall|a: int, b: int| 0 <= a < b < r.len() implies #[trigger] r[a].0 != #[trigger] r[b].0 by {
            assert(r[a] == s[a]);
            if b < r.len() - 1 {
                assert(r[b] == s[b]);
            }
        }
    }
}

/// Whether some definition names `x`.
pub open spec fn has_name(s: Seq<(Seq<char>, ValueDefV)>, x: Seq<char>) -> bool {
    exists|i: int| 0 <= i < s.len() && s[i].0 == x
}

/// The definitions a scope holds after the writes `writes`, in order, to a
/// scope with none.
pub open spec fn scope_of_writes(writes: Seq<(Seq<char>, ValueDefV)>) -> Seq<(Seq<char>, ValueDefV)>
    decreases writes.len(),
{
    if writes.len() == 0 {
        Seq::empty()
    } else {
        scope_insert(scope_of_writes(writes.drop_last()), writes.last().0, writes.last().1)
    }
}

/// The value last written to `x` among `writes`, if any.
pub open spec fn last_write(writes: Seq<(Seq<char>, ValueDefV)>, x: Seq<char>) -> Option<ValueDefV>
    decreases writes.len(),
{
    if writes.len() == 0 {
        None
    } else if writes.last().0 == x {
        Some(writes.last().1)
    } else {
        last_write(writes.drop_last(), x)
    }
}

/// The names written among `writes`.
pub open spec fn written_names(writes: Seq<(Seq<char>, ValueDefV)>) -> Set<Seq<char>>
    decreases writes.len(),
{
    if writes.len() == 0 {
        Set::empty()
    } else {
        written_names(writes.drop_last()).insert(writes.last().0)
    }
}

/// After any sequence of writes to a new scope, the last write to a name
/// wins: a variable is defined exactly when it was written, every
/// definition of it is the value last written, no name is defined twice,
/// and the number of definitions is the number of distinct names written.
pub proof fn law_scope_writes(writes: Seq<(Seq<char>, ValueDefV)>)
    ensures
        distinct_names(scope_of_writes(writes)),
        forall|x: Seq<char>| #[trigger] has_name(scope_of_writes(writes), x) <==> last_write(writes, x) is Some,
        forall|i: int| 0 <= i < scope_of_writes(writes).len() ==> last_write(writes, #[trigger] scope_of_writes(writes)[i].0)
            == Some(scope_of_writes(writes)[i].1),
        written_names(writes).finite(),
        scope_of_writes(writes).len() == written_names(writes).len(),
    decreases writes.len(),
{
    if writes.len() > 0 {
        let w0 = writes.drop_last();
        let (k, v) = writes.last();
        law_scope_writes(w0);
        let s = scope_of_writes(w0);
        let r = scope_of_writes(writes);
        assert(r == scope_insert(s, k, v));
        lemma_scope_insert(s, k, v);
        law_scope_read_after_write(s, k, v);
        assert forall|x: Seq<char>| #[trigger] has_name(r, x) <==> last_write(writes, x) is Some by {
            assert(has_name(r, x) <==> (x == k || has_name(s, x)));
            assert(has_name(s, x) <==> last_write(w0, x) is Some);
        }
        assert forall|i: int| 0 <= i < r.len() implies last_write(writes, #[trigger] r[i].0) == Some(r[i].1) by {
            let e = r[i];
            if e.0 != k {
                assert(r.contains(e));
                assert(s.contains(e));
                let j = choose|j: int| 0 <= j < s.len() && s[j] == e;
                assert(last_write(w0, s[j].0) == Some(s[j].1));
            }
        }
        assert(has_name(s, k) <==> last_write(w0, k) is Some);
        assert forall|x: Seq<char>| #[trigger] written_names(w0).contains(x) <==> last_write(w0, x) is Some by {
            lemma_written_names(w0, x);
        }
    }
}

/// A name was written exactly when some write to it is the last.
proof fn lemma_written_names(writes: Seq<(Seq<char>, ValueDefV)>, x: Seq<char>)
    ensures
        written_names(writes).contains(x) <==> last_write(writes, x) is Some,
        written_names(writes).finite(),
    decreases writes.len(),
{
    if writes.len() > 0 {
        lemma_written_names(writes.drop_last(), x);
    }
}

/// Whether no two of the definitions name the same variable.
pub open spec fn distinct_names(s: Seq<(Seq<char>, ValueDefV)>) -> bool {
    forall|i: int, j: int| 0 <= i < j < s.len() ==> #[trigger] s[i].0 != #[trigger] s[j].0
}

/// The variable definitions of a scope, in the order they were made.
#[derive(Debug)]
pub struct ScopeDef {
    values: Vec<(String, ValueDef)>,
}

/// The view of a list of named definitions.
pub open spec fn named_defs_view(v: Seq<(String, ValueDef)>) -> Seq<(Seq<char>, ValueDefV)> {
    Seq::new(v.len(), |i: int| (v[i].0@, v[i].1@))
}

impl View for ScopeDef {
    type V = Seq<(Seq<char>, ValueDefV)>;

    closed spec fn view(&self) -> Seq<(Seq<char>, ValueDefV)> {
        named_defs_view(self.values@)
    }
}

impl ScopeDef {
    /// The invariant: no variable is defined twice.
    pub open spec fn wf(&self) -> bool {
        distinct_names(self@)
    }

    /// A scope with no variables.
    pub fn new() -> (s: ScopeDef)
        ensures
            s@ == Seq::<(Seq<char>, ValueDefV)>::empty(),
            s.wf(),
    {
        ScopeDef { values: Vec::new() }
    }

    /// Defines variable `name` as `value`; a variable defined already gets
    /// the new definition and moves to the end.
    pub fn set_var_def(&mut self, name: String, value: ValueDef)
        requires
            old(self).wf(),
        ensures
            final(self).wf(),
            final(self)@ == scope_insert(old(self)@, name@, value@),
    {
        let ghost s0 = self@;
        let mut i: usize = 0;
        while i < self.values.len()
            invariant
                i <= self.values@.len(),
                self@ == s0,
                s0 == old(self)@,
                distinct_names(s0),
                forall|j: int| 0 <= j < i ==> #[trigger] s0[j].0 != name@,
            decreases self.values@.len() - i,
        {
            if str_equal(self.values[i].0.as_str(), name.as_str()) {
                let _old = self.values.remove(i);
                self.values.push((name, value));
                proof {
                    assert(s0[i as int].0 == name@);
                    assert(exists|k: int| 0 <= k < s0.len() && #[trigger] s0[k].0 == name@);
                    let k = choose|k: int| 0 <= k < s0.len() && #[trigger] s0[k].0 == name@;
                    if k != i {
                        if k < i {
                            assert(s0[k].0 != name@);
                        } else {
                            assert(s0[i as int].0 != s0[k].0);
                        }
                    }
                    assert(k == i as int);
                    assert(self@ =~= s0.remove(i as int).push((name@, value@)));
                    assert(scope_insert(s0, name@, value@) == s0.remove(i as int).push((name@, value@)));
                    assert forall|a: int, b: int| 0 <= a < b < self@.len() implies #[trigger] self@[a].0
                        != #[trigger] self@[b].0 by {
                        let sr = s0.remove(i as int);
                        if b == self@.len() - 1 {
                            let ia = if a < i { a } else { a + 1 };
                            assert(sr[a] == s0[ia]);
                            if ia < i {
                                assert(s0[ia].0 != name@);
                            } else {
                                assert(s0[ia].0 != s0[i as int].0);
                            }
                        } else {
                            let ia = if a < i { a } else { a + 1 };
                            let ib = if b < i { b } else { b + 1 };
                            assert(sr[a] == s0[ia]);
                            assert(sr[b] == s0[ib]);
                        }
                    }
                }
                return;
            }
            i = i + 1;
        }
        self.values.push((name, value));
        proof {
            assert(!(exists|k: int| 0 <= k < s0.len() && #[trigger] s0[k].0 == name@));
            assert(self@ =~= s0.push((name@, value@)));
        }
    }

    /// The number of variables defined.
    pub fn len(&self) -> (n: usize)
        ensures
            n == self@.len(),
    {
        self.values.len()
    }

    /// The definition of variable `name`, if any.
    pub fn get_var_def(&self, name: &str) -> (d: Option<&ValueDef>)
        ensures
            match d {
                Some(v) => exists|i: int| 0 <= i < self@.len() && #[trigger] self@[i].0 == name@ && self@[i].1 == v@,
                None => forall|i: int| 0 <= i < self@.len() ==> #[trigger] self@[i].0 != name@,
            },
    {
        let mut i: usize = 0;
        while i < self.values.len()
            invariant
                i <= self.values@.len(),
                forall|j: int| 0 <= j < i ==> #[trigger] self@[j].0 != name@,
            decreases self.values@.len() - i,
        {
            if str_equal(self.values[i].0.as_str(), name) {
                assert(self@[i as int].0 == name@);
                return Some(&self.values[i].1);
            }
            i = i + 1;
        }
        None
    }
}

/// The definitions the properties `props[0..k]` give, defined in order.
pub open spec fn scope_from_props(props: Seq<(Seq<char>, NodeV)>, k: int) -> Seq<(Seq<char>, ValueDefV)>
    decreases k,
{
    if k <= 0 || k > props.len() {
        Seq::empty()
    } else {
        scope_insert(scope_from_props(props, k - 1), props[k - 1].0, value_def_of(props[k - 1].1))
    }
}

/// The variable definitions of the `scope` property of a node: those of an
/// object's properties, none where it is missing or null, and an error for
/// any other value.
pub open spec fn scope_def_of(n: NodeV) -> Result<Seq<(Seq<char>, ValueDefV)>, Seq<DetailV>> {
    match child_of(n, "scope"@) {
        None => Ok(Seq::empty()),
        Some(sn) => match sn.value {
            ValueV::Object(props) => Ok(scope_from_props(props, props.len() as int)),
            ValueV::Null => Ok(Seq::empty()),
            _ => Err(seq![DetailV::ScopeNonObject { kind: crate::model::node::kind_of(sn) }]),
        },
    }
}

impl ScopeDef {
    /// The variable definitions of `node`'s `scope` property.
    pub fn parse(node: &Node) -> (r: Result<ScopeDef, DefsError>)
        ensures
            match r {
                Ok(s) => s.wf() && scope_def_of(node@) == Ok::<_, Seq<DetailV>>(s@),
                Err(e) => scope_def_of(node@) == Err::<Seq<(Seq<char>, ValueDefV)>, _>(e@),
            },
    {
        let mut scope = ScopeDef::new();
        match node.get_child_key("scope") {
            None => {},
            Some(sn) => match &sn.value {
                Value::Object(props) => {
                    proof {
                        lemma_props_view(props@, props@.len() as int);
                    }
                    let ghost pv = props_view(props@, props@.len() as int);
                    let mut k: usize = 0;
                    while k < props.len()
                        invariant
                            k <= props@.len(),
                            pv == props_view(props@, props@.len() as int),
                            pv.len() == props@.len(),
                            forall|j: int| 0 <= j < props@.len() ==> #[trigger] pv[j] == (props@[j].0@, props@[j].1@),
                            scope.wf(),
                            scope@ == scope_from_props(pv, k as int),
                        decreases props@.len() - k,
                    {
                        let v = ValueDef::parse(&props[k].1);
                        let name = props[k].0.clone();
                        scope.set_var_def(name, v);
                        k = k + 1;
                    }
                    proof {
                        reveal_strlit("scope");
                    }
                },
                Value::Null => {},
                _ => {
                    return Err(DefsError::new(DefsErrorDetail::ScopeNonObject { kind: sn.kind() }));
                },
            },
        }
        Ok(scope)
    }
}

/// A definition scope: the model root, the node it was defined by, its
/// variable definitions, whether its variables were evaluated since they
/// were last cleared, and the scopes nested in it. The evaluated values
/// themselves belong to the expression engine and are not held here.
#[derive(Debug)]
pub struct Scoped {
    root: Node,
    node: Node,
    scope_def: ScopeDef,
    resolved: bool,
    children: Vec<Scoped>,
}

impl Scoped {
    /// The model root, as a value.
    pub closed spec fn root_v(&self) -> NodeV {
        self.root@
    }

    /// The defining node, as a value.
    pub closed spec fn node_v(&self) -> NodeV {
        self.node@
    }

    /// The variable definitions, as a value.
    pub closed spec fn defs_v(&self) -> Seq<(Seq<char>, ValueDefV)> {
        self.scope_def@
    }

    /// Whether the variables were evaluated since they were last cleared.
    pub closed spec fn resolved_v(&self) -> bool {
        self.resolved
    }

    /// The scopes nested in this one, in the order they were added.
    pub closed spec fn children_v(&self) -> Seq<Scoped> {
        self.children@
    }

    /// Whether this scope is `before` with the evaluated variables of it and
    /// of every scope nested in it, at any depth, forgotten: the same roots,
    /// nodes, definitions and nesting, and nothing evaluated.
    pub closed spec fn is_cleared_of(&self, before: Scoped) -> bool
        decreases before,
    {
        &&& !self.resolved
        &&& self.root@ == before.root@
        &&& self.node@ == before.node@
        &&& self.scope_def@ == before.scope_def@
        &&& self.children@.len() == before.children@.len()
        &&& forall|i: int|
            0 <= i < before.children@.len() ==> (#[trigger] self.children@[i]).is_cleared_of(
                before.children@[i],
            )
    }

    /// A scope defined by `node` under `root`, with `scope_def` as its
    /// variable definitions; nothing evaluated yet and nothing nested.
    pub fn new(root: &Node, node: &Node, scope_def: ScopeDef) -> (s: Scoped)
        ensures
            s.root_v() == root@,
            s.node_v() == node@,
            s.defs_v() == scope_def@,
            !s.resolved_v(),
            s.children_v().len() == 0,
    {
        Scoped {
            root: root.deep_copy(),
            node: node.deep_copy(),
            scope_def,
            resolved: false,
            children: Vec::new(),
        }
    }

    /// The model root.
    pub fn root(&self) -> (r: &Node)
        ensures
            r@ == self.root_v(),
    {
        &self.root
    }

    /// The node the scope was defined by.
    pub fn node(&self) -> (n: &Node)
        ensures
            n@ == self.node_v(),
    {
        &self.node
    }

    /// The variable definitions.
    pub fn scope_def(&self) -> (d: &ScopeDef)
        ensures
            d@ == self.defs_v(),
    {
        &self.scope_def
    }

    /// The variable definitions, to change.
    pub fn scope_def_mut(&mut self) -> (d: &mut ScopeDef)
        ensures
            d@ == old(self).defs_v(),
            final(self).defs_v() == final(d)@,
            final(self).root_v() == old(self).root_v(),
            final(self).node_v() == old(self).node_v(),
            final(self).resolved_v() == old(self).resolved_v(),
            final(self).children_v() == old(self).children_v(),
    {
        &mut self.scope_def
    }

    /// The scopes nested in this one.
    pub fn children(&self) -> (c: &Vec<Scoped>)
        ensures
            c@ == self.children_v(),
    {
        &self.children
    }

    /// The `i`-th scope nested in this one, to change.
    pub fn child_mut(&mut self, i: usize) -> (c: &mut Scoped)
        requires
            i < old(self).children_v().len(),
        ensures
            *c == old(self).children_v()[i as int],
            final(self).children_v() == old(self).children_v().update(i as int, *final(c)),
            final(self).resolved_v() == old(self).resolved_v(),
            final(self).root_v() == old(self).root_v(),
            final(self).node_v() == old(self).node_v(),
            final(self).defs_v() == old(self).defs_v(),
    {
        &mut self.children[i]
    }

    /// Whether the variables were evaluated since they were last cleared.
    pub fn is_resolved(&self) -> (b: bool)
        ensures
            b == self.resolved_v(),
    {
        self.resolved
    }

    /// Records that the variables of this scope were evaluated against the
    /// current tree.
    pub fn mark_resolved(&mut self)
        ensures
            final(self).resolved_v(),
            final(self).root_v() == old(self).root_v(),
            final(self).node_v() == old(self).node_v(),
            final(self).defs_v() == old(self).defs_v(),
            final(self).children_v() == old(self).children_v(),
    {
        self.resolved = true;
    }

    /// Nests `child` in this scope, as its last child; its variables are to
    /// be evaluated anew, within this scope.
    pub fn add_child(&mut self, child: Scoped)
        ensures
            final(self).children_v().len() == old(self).children_v().len() + 1,
            final(self).children_v().subrange(0, old(self).children_v().len() as int) == old(self).children_v(),
            ({
                let c = final(self).children_v().last();
                &&& !c.resolved_v()
                &&& c.root_v() == child.root_v()
                &&& c.node_v() == child.node_v()
                &&& c.defs_v() == child.defs_v()
                &&& c.children_v() == child.children_v()
            }),
            final(self).resolved_v() == old(self).resolved_v(),
            final(self).root_v() == old(self).root_v(),
            final(self).node_v() == old(self).node_v(),
            final(self).defs_v() == old(self).defs_v(),
    {
        let mut child = child;
        child.resolved = false;
        self.children.push(child);
        assert(self.children@.subrange(0, old(self).children@.len() as int) =~= old(self).children@);
    }

    /// Forgets the evaluated variables of this scope and of every scope
    /// nested in it, at any depth: they are evaluated anew when next needed.
    pub fn clear_scope(&mut self)
        ensures
            final(self).is_cleared_of(*old(self)),
        decreases *old(self),
    {
        self.resolved = false;
        let mut kids: Vec<Scoped> = Vec::new();
        std::mem::swap(&mut kids, &mut self.children);
        let ghost orig = kids@;
        let n = kids.len();
        let mut done: Vec<Scoped> = Vec::new();
        let mut i: usize = 0;
        while i < n
            invariant
                n == orig.len(),
                orig == old(self).children@,
                i <= n,
                kids@ == orig.subrange(i as int, n as int),
                done@.len() == i,
                forall|j: int| 0 <= j < i ==> (#[trigger] done@[j]).is_cleared_of(orig[j]),
            decreases n - i,
        {
            let mut c = kids.remove(0);
            assert(c == orig[i as int]);
            proof {
                assert(decreases_to!(old(self).children => old(self).children[i as int])) by {
                    vstd::std_specs::vec::axiom_vec_index_decreases(old(self).children, i as int);
                }
            }
            c.clear_scope();
            done.push(c);
            assert(kids@ =~= orig.subrange(i + 1, n as int));
            i = i + 1;
        }
        self.children = done;
    }
}

/// A definition read from the model tree.
pub trait ModelDef {
    /// The model root.
    fn root(&self) -> &Node;

    /// The node the definition was read from.
    fn node(&self) -> &Node;
}

/// A definition that has a scope of its own.
pub trait AsScoped {
    /// The definition's scope.
    fn as_scoped(&self) -> &Scoped;
}

/// A host: the node it is defined by and its name, the `fqdn` property
/// where present and true, else the `hostname` property.
#[derive(Debug)]
pub struct HostDef {
    root: Node,
    node: Node,
    hostname: String,
}

impl HostDef {
    /// The defining node and the root, as values.
    pub closed spec fn nodes_v(&self) -> (NodeV, NodeV) {
        (self.root@, self.node@)
    }

    /// The host's name, as a value.
    pub closed spec fn hostname_v(&self) -> Seq<char> {
        self.hostname@
    }

    /// The host defined by `node` under `root`.
    pub fn new(root: Node, node: Node) -> (r: Result<HostDef, DefsError>)
        ensures
            r matches Ok(h) && h.nodes_v() == (root@, node@) && h.hostname_v()
                == first_true_text(node@, "fqdn"@, "hostname"@),
    {
        let hostname = first_true_prop_text(&node, "fqdn", "hostname");
        Ok(HostDef { root, node, hostname })
    }

    /// The host's name.
    pub fn hostname(&self) -> (s: &str)
        ensures
            s@ == self.hostname_v(),
    {
        self.hostname.as_str()
    }

    /// The host a definition node gives: an object with both a `hostname`
    /// and an `ssh_dest` property.
    pub fn parse(root: &Node, node: &Node) -> (r: Result<HostDef, DefsError>)
        ensures
            match r {
                Ok(h) => node@.value is Object && child_of(node@, "hostname"@) is Some && child_of(
                    node@,
                    "ssh_dest"@,
                ) is Some && h.nodes_v() == (root@, node@) && h.hostname_v()
                    == first_true_text(node@, "fqdn"@, "hostname"@),
                Err(e) => e@ == if !(node@.value is Object) {
                    seq![DetailV::HostNonObject { kind: crate::model::node::kind_of(node@) }]
                } else if child_of(node@, "hostname"@) is None {
                    seq![DetailV::HostMissingHostname]
                } else {
                    seq![DetailV::HostMissingSshDest]
                },
            },
    {
        match &node.value {
            Value::Object(_) => {
                if node.get_child_key("hostname").is_none() {
                    return Err(DefsError::new(DefsErrorDetail::HostMissingHostname));
                }
                if node.get_child_key("ssh_dest").is_none() {
                    return Err(DefsError::new(DefsErrorDetail::HostMissingSshDest));
                }
            },
            _ => {
                return Err(DefsError::new(DefsErrorDetail::HostNonObject { kind: node.kind() }));
            },
        }
        HostDef::new(root.deep_copy(), node.deep_copy())
    }
}

impl ModelDef for HostDef {
    fn root(&self) -> (r: &Node)
        ensures
            r@ == self.nodes_v().0,
    {
        &self.root
    }

    fn node(&self) -> (n: &Node)
        ensures
            n@ == self.nodes_v().1,
    {
        &self.node
    }
}

/// A user: the node it is defined by and its name, the `username` property.
#[derive(Debug)]
pub struct UserDef {
    root: Node,
    node: Node,
    username: String,
}

impl UserDef {
    /// The defining node and the root, as values.
    pub closed spec fn nodes_v(&self) -> (NodeV, NodeV) {
        (self.root@, self.node@)
    }

    /// The user's name, as a value.
    pub closed spec fn username_v(&self) -> Seq<char> {
        self.username@
    }

    /// The user defined by `node` under `root`.
    pub fn new(root: Node, node: Node) -> (r: Result<UserDef, DefsError>)
        ensures
            r matches Ok(u) && u.nodes_v() == (root@, node@) && u.username_v()
                == prop_text(node@, "username"@),
    {
        let username = prop_text_of(&node, "username");
        Ok(UserDef { root, node, username })
    }

    /// The user's name.
    pub fn username(&self) -> (s: &str)
        ensures
            s@ == self.username_v(),
    {
        self.username.as_str()
    }

    /// The user a definition node gives: an object with a `username` property.
    pub fn parse(root: &Node, node: &Node) -> (r: Result<UserDef, DefsError>)
        ensures
            match r {
                Ok(u) => node@.value is Object && child_of(node@, "username"@) is Some && u.nodes_v()
                    == (root@, node@) && u.username_v() == prop_text(node@, "username"@),
                Err(e) => e@ == if !(node@.value is Object) {
                    seq![DetailV::UserNonObject { kind: crate::model::node::kind_of(node@) }]
                } else {
                    seq![DetailV::UserMissingUsername]
                },
            },
    {
        match &node.value {
            Value::Object(_) => {
                if node.get_child_key("username").is_none() {
                    return Err(DefsError::new(DefsErrorDetail::UserMissingUsername));
                }
            },
            _ => {
                return Err(DefsError::new(DefsErrorDetail::UserNonObject { kind: node.kind() }));
            },
        }
        UserDef::new(root.deep_copy(), node.deep_copy())
    }
}

impl ModelDef for UserDef {
    fn root(&self) -> (r: &Node)
        ensures
            r@ == self.nodes_v().0,
    {
        &self.root
    }

    fn node(&self) -> (n: &Node)
        ensures
            n@ == self.nodes_v().1,
    {
        &self.node
    }
}

} // verus!
