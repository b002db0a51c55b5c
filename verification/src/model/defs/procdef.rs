//! Procedures, their steps and tasks, read from the model tree. A procedure
//! runs steps; a step runs tasks on hosts; a switch task picks among cases,
//! each a procedure of its own.
use vstd::prelude::*;
use crate::command::env::{env_insert, EnvVars};
use crate::model::defs::{scope_def_of, DefsError, DefsErrorDetail, DetailV, Opath, ScopeDef,
    ValueDef, ValueDefV, value_def_of, strip_delims};
use crate::model::defs::watch::{mask_of, glob_usable, ChangeKindMask, FileWatch, ModelWatch};
use crate::model::node::{child_of, kind_of, lemma_nodes_view, lemma_prop_index, lemma_props_view,
    nodes_view, prop_index, props_view, text_of, truth_of, Kind, Node, NodeV, Value, ValueV};
use crate::text::{decimal, push_decimal, push_str, str_equal, to_owned_string, trimmed};

verus! {

/// The kind of a procedure.
#[derive(Debug, Clone, Copy, PartialEq, Eq, Structural)]
pub enum ProcKind {
    Exec,
    Check,
    Update,
    Probe,
}

/// The procedure kind a name gives.
pub open spec fn proc_kind_of(s: Seq<char>) -> Option<ProcKind> {
    if s == "exec"@ {
        Some(ProcKind::Exec)
    } else if s == "update"@ {
        Some(ProcKind::Update)
    } else if s == "check"@ {
        Some(ProcKind::Check)
    } else if s == "probe"@ {
        Some(ProcKind::Probe)
    } else {
        None
    }
}

impl ProcKind {
    /// The procedure kind named `s`: `exec`, `update`, `check` or `probe`.
    pub fn from_str(s: &str) -> (r: Result<ProcKind, DefsErrorDetail>)
        ensures
            match r {
                Ok(k) => proc_kind_of(s@) == Some(k),
                Err(e) => proc_kind_of(s@) is None && e@ == (DetailV::UnknownProcKind { value: s@ }),
            },
    {
        proof {
            reveal_strlit("exec");
            reveal_strlit("update");
            reveal_strlit("check");
            reveal_strlit("probe");
        }
        if str_equal(s, "exec") {
            Ok(ProcKind::Exec)
        } else if str_equal(s, "update") {
            Ok(ProcKind::Update)
        } else if str_equal(s, "check") {
            Ok(ProcKind::Check)
        } else if str_equal(s, "probe") {
            Ok(ProcKind::Probe)
        } else {
            Err(DefsErrorDetail::UnknownProcKind { value: to_owned_string(s) })
        }
    }

    /// The default kind: `Exec`.
    pub fn default_kind() -> (k: ProcKind)
        ensures
            k == ProcKind::Exec,
    {
        ProcKind::Exec
    }
}

/// The kind of a task.
#[derive(Debug, Clone, Copy, PartialEq, Eq, Structural)]
pub enum TaskKind {
    Exec,
    Switch,
    Template,
    Command,
    Script,
    FileCopy,
    FileCompare,
}

/// The task kind a name gives.
pub open spec fn task_kind_of(s: Seq<char>) -> Option<TaskKind> {
    if s == "exec"@ {
        Some(TaskKind::Exec)
    } else if s == "switch"@ {
        Some(TaskKind::Switch)
    } else if s == "template"@ {
        Some(TaskKind::Template)
    } else if s == "command"@ {
        Some(TaskKind::Command)
    } else if s == "script"@ {
        Some(TaskKind::Script)
    } else if s == "file-copy"@ {
        Some(TaskKind::FileCopy)
    } else if s == "file-compare"@ {
        Some(TaskKind::FileCompare)
    } else {
        None
    }
}

impl TaskKind {
    /// The task kind named `s`: `exec`, `switch`, `template`, `command`, `script`,
    /// `file-copy` or `file-compare`.
    pub fn from_str(s: &str) -> (r: Result<TaskKind, DefsErrorDetail>)
        ensures
            match r {
                Ok(k) => task_kind_of(s@) == Some(k),
                Err(e) => task_kind_of(s@) is None && e@ == (DetailV::UnknownTaskKind { value: s@ }),
            },
    {
        proof {
            reveal_strlit("exec");
            reveal_strlit("switch");
            reveal_strlit("template");
            reveal_strlit("command");
            reveal_strlit("script");
            reveal_strlit("file-copy");
            reveal_strlit("file-compare");
        }
        if str_equal(s, "exec") {
            Ok(TaskKind::Exec)
        } else if str_equal(s, "switch") {
            Ok(TaskKind::Switch)
        } else if str_equal(s, "template") {
            Ok(TaskKind::Template)
        } else if str_equal(s, "command") {
            Ok(TaskKind::Command)
        } else if str_equal(s, "script") {
            Ok(TaskKind::Script)
        } else if str_equal(s, "file-copy") {
            Ok(TaskKind::FileCopy)
        } else if str_equal(s, "file-compare") {
            Ok(TaskKind::FileCompare)
        } else {
            Err(DefsErrorDetail::UnknownTaskKind { value: to_owned_string(s) })
        }
    }
}

/// The format of a task's output.
#[derive(Debug, Clone, Copy, PartialEq, Eq, Structural)]
pub enum FileFormat {
    Binary,
    Text,
    Json,
    Yaml,
    Toml,
}

/// Whether `s` equals the lower-case ASCII text `lower`, letters compared
/// without regard to case.
pub open spec fn eq_ignore_case(s: Seq<char>, lower: Seq<char>) -> bool {
    s.len() == lower.len() && forall|i: int|
        0 <= i < s.len() ==> #[trigger] s[i] == lower[i] || ('a' <= lower[i] <= 'z' && s[i] as u32 + 32
            == lower[i] as u32)
}

/// The format a name gives: `text`/`txt`, `json`, `yaml`/`yml`, `toml`, in
/// any case; anything else is binary.
pub open spec fn format_of(s: Seq<char>) -> FileFormat {
    if eq_ignore_case(s, "text"@) || eq_ignore_case(s, "txt"@) {
        FileFormat::Text
    } else if eq_ignore_case(s, "json"@) {
        FileFormat::Json
    } else if eq_ignore_case(s, "yaml"@) || eq_ignore_case(s, "yml"@) {
        FileFormat::Yaml
    } else if eq_ignore_case(s, "toml"@) {
        FileFormat::Toml
    } else {
        FileFormat::Binary
    }
}

/// Whether `s` equals `lower` without regard to the case of ASCII letters.
fn equal_ignore_case(s: &str, lower: &str) -> (b: bool)
    ensures
        b == eq_ignore_case(s@, lower@),
{
    let n = s.unicode_len();
    if n != lower.unicode_len() {
        return false;
    }
    let mut i: usize = 0;
    while i < n
        invariant
            n == s@.len(),
            n == lower@.len(),
            i <= n,
            forall|j: int|
                0 <= j < i ==> #[trigger] s@[j] == lower@[j] || ('a' <= lower@[j] <= 'z' && s@[j] as u32
                    + 32 == lower@[j] as u32),
        decreases n - i,
    {
        let c = s.get_char(i);
        let l = lower.get_char(i);
        if !(c == l || ('a' <= l && l <= 'z' && (c as u32) + 32 == (l as u32))) {
            return false;
        }
        i = i + 1;
    }
    true
}

impl FileFormat {
    /// The format a name gives.
    pub fn from(s: &str) -> (f: FileFormat)
        ensures
            f == format_of(s@),
    {
        proof {
            reveal_strlit("text");
            reveal_strlit("txt");
            reveal_strlit("json");
            reveal_strlit("yaml");
            reveal_strlit("yml");
            reveal_strlit("toml");
        }
        if equal_ignore_case(s, "text") || equal_ignore_case(s, "txt") {
            FileFormat::Text
        } else if equal_ignore_case(s, "json") {
            FileFormat::Json
        } else if equal_ignore_case(s, "yaml") || equal_ignore_case(s, "yml") {
            FileFormat::Yaml
        } else if equal_ignore_case(s, "toml") {
            FileFormat::Toml
        } else {
            FileFormat::Binary
        }
    }
}

/// Where a task's output goes: into a variable, or through an expression.
#[derive(Debug)]
pub enum OutputMode {
    Var(String),
    Expr(Opath),
}

/// Where a task's output goes, as mathematics sees it.
pub enum OutputModeV {
    Var(Seq<char>),
    Expr(Seq<char>),
}

impl View for OutputMode {
    type V = OutputModeV;

    open spec fn view(&self) -> OutputModeV {
        match self {
            OutputMode::Var(s) => OutputModeV::Var(s@),
            OutputMode::Expr(o) => OutputModeV::Expr(o@),
        }
    }
}

/// What is done with a task's output, and its format.
#[derive(Debug)]
pub struct TaskOutput {
    mode: OutputMode,
    format: FileFormat,
}

/// What is done with a task's output, as mathematics sees it.
pub struct TaskOutputV {
    pub mode: OutputModeV,
    pub format: FileFormat,
}

impl View for TaskOutput {
    type V = TaskOutputV;

    closed spec fn view(&self) -> TaskOutputV {
        TaskOutputV { mode: self.mode@, format: self.format }
    }
}

/// The default output: into the variable `output`, as YAML.
pub open spec fn default_output() -> TaskOutputV {
    TaskOutputV { mode: OutputModeV::Var("output"@), format: FileFormat::Yaml }
}

/// The expression an `${...}`-delimited text gives.
pub open spec fn expr_text(s: Seq<char>) -> Seq<char> {
    strip_delims(trimmed(s), "${"@, "}"@)
}

/// The output definition the properties `props[0..k]` give, starting from
/// `out`: `var` names a variable, `expr` gives an expression (the first of
/// them that occurs decides), `format` names the format; each must be a
/// string.
pub open spec fn output_from_props(props: Seq<(Seq<char>, NodeV)>, k: int, mode_set: bool, out: TaskOutputV) -> Result<
    TaskOutputV,
    Seq<DetailV>,
>
    decreases k,
{
    if k <= 0 || k > props.len() {
        Ok(out)
    } else {
        match output_from_props(props, k - 1, mode_set, out) {
            Err(e) => Err(e),
            Ok(o) => {
                let (key, v) = props[k - 1];
                let set_before = mode_set || exists|j: int|
                    0 <= j < k - 1 && (#[trigger] props[j].0 == "var"@ || props[j].0 == "expr"@);
                if key == "var"@ || key == "expr"@ || key == "format"@ {
                    match v.value {
                        ValueV::String(s) => if key == "format"@ {
                            Ok(TaskOutputV { format: format_of(s), ..o })
                        } else if set_before {
                            Ok(o)
                        } else if key == "var"@ {
                            Ok(TaskOutputV { mode: OutputModeV::Var(s), ..o })
                        } else {
                            Ok(TaskOutputV { mode: OutputModeV::Expr(expr_text(s)), ..o })
                        },
                        _ => Err(seq![DetailV::PropParse { prop: key }]),
                    }
                } else {
                    Ok(o)
                }
            },
        }
    }
}

/// Once reading the output properties failed, reading more fails the same way.
proof fn lemma_output_err_persists(props: Seq<(Seq<char>, NodeV)>, k: int, k2: int)
    requires
        0 <= k <= k2 <= props.len(),
        output_from_props(props, k, false, default_output()) is Err,
    ensures
        output_from_props(props, k2, false, default_output()) == output_from_props(props, k, false, default_output()),
    decreases k2 - k,
{
    if k2 > k {
        lemma_output_err_persists(props, k, k2 - 1);
    }
}

/// The output definition a node gives: an object of `var`/`expr` and
/// `format`, or a string naming the format; else an error.
pub open spec fn task_output_of(n: NodeV) -> Result<TaskOutputV, Seq<DetailV>> {
    match n.value {
        ValueV::Object(props) => output_from_props(props, props.len() as int, false, default_output()),
        ValueV::String(s) => Ok(TaskOutputV { format: format_of(s), ..default_output() }),
        _ => Err(
            seq![DetailV::UnexpectedPropType { kind: kind_of(n), expected: seq![Kind::Object, Kind::String] }],
        ),
    }
}

impl TaskOutput {
    /// The output definition `node` gives.
    #[verifier::loop_isolation(false)]
    pub fn parse(node: &Node) -> (r: Result<TaskOutput, DefsError>)
        ensures
            match r {
                Ok(o) => task_output_of(node@) == Ok::<_, Seq<DetailV>>(o@),
                Err(e) => task_output_of(node@) == Err::<TaskOutputV, _>(e@),
            },
    {
        proof {
            reveal_strlit("output");
            reveal_strlit("var");
            reveal_strlit("expr");
            reveal_strlit("format");
        }
        match &node.value {
            Value::Object(props) => {
                proof {
                    lemma_props_view(props@, props@.len() as int);
                }
                let ghost pv = props_view(props@, props@.len() as int);
                let mut out = TaskOutput { mode: OutputMode::Var(to_owned_string("output")), format: FileFormat::Yaml };
                let mut mode_set = false;
                let mut k: usize = 0;
                while k < props.len()
                    invariant
                        k <= props@.len(),
                        pv == props_view(props@, props@.len() as int),
                        pv.len() == props@.len(),
                        forall|j: int| 0 <= j < props@.len() ==> #[trigger] pv[j] == (props@[j].0@, props@[j].1@),
                        output_from_props(pv, k as int, false, default_output()) == Ok::<_, Seq<DetailV>>(out@),
                        node@.value == ValueV::Object(pv),
                        mode_set == exists|j: int| 0 <= j < k && (#[trigger] pv[j].0 == "var"@ || pv[j].0 == "expr"@),
                    decreases props@.len() - k,
                {
                    let key = props[k].0.as_str();
                    let is_var = str_equal(key, "var");
                    let is_expr = str_equal(key, "expr");
                    let is_format = str_equal(key, "format");
                    assert(pv[k as int] == (props@[k as int].0@, props@[k as int].1@));
                    if is_var || is_expr || is_format {
                        match &props[k].1.value {
                            Value::String(s) => {
                                if is_format {
                                    out.format = FileFormat::from(s.as_str());
                                } else if !mode_set {
                                    if is_var {
                                        out.mode = OutputMode::Var(s.clone());
                                    } else {
                                        out.mode = OutputMode::Expr(Opath::parse_opt_delims(s.as_str(), "${", "}"));
                                    }
                                }
                            },
                            _ => {
                                proof {
                                    assert(!(pv[k as int].1.value is String));
                                    assert(output_from_props(pv, k + 1, false, default_output()) == Err::<TaskOutputV, _>(
                                        seq![DetailV::PropParse { prop: pv[k as int].0 }],
                                    ));
                                    lemma_output_err_persists(pv, (k + 1) as int, props@.len() as int);
                                    assert(node@.value == ValueV::Object(pv));
                                }
                                return Err(DefsError::new(DefsErrorDetail::PropParse { prop: props[k].0.clone() }));
                            },
                        }
                    }
                    if is_var || is_expr {
                        mode_set = true;
                    }
                    proof {
                        assert(pv[k as int].0 == key@);
                        if is_var || is_expr {
                            assert(pv[k as int].0 == "var"@ || pv[k as int].0 == "expr"@);
                        }
                        assert(exists|j: int| 0 <= j < k + 1 && (#[trigger] pv[j].0 == "var"@ || pv[j].0 == "expr"@)
                            <==> (mode_set)) by {
                            if exists|j: int| 0 <= j < k + 1 && (#[trigger] pv[j].0 == "var"@ || pv[j].0 == "expr"@) {
                                let j = choose|j: int| 0 <= j < k + 1 && (#[trigger] pv[j].0 == "var"@ || pv[j].0 == "expr"@);
                                if j < k {
                                    assert(exists|j2: int| 0 <= j2 < k && (#[trigger] pv[j2].0 == "var"@ || pv[j2].0 == "expr"@));
                                }
                            }
                        }
                    }
                    k = k + 1;
                }
                Ok(out)
            },
            Value::String(s) => {
                Ok(TaskOutput { mode: OutputMode::Var(to_owned_string("output")), format: FileFormat::from(s.as_str()) })
            },
            _ => {
                let mut expected: Vec<Kind> = Vec::new();
                expected.push(Kind::Object);
                expected.push(Kind::String);
                assert(expected@ =~= seq![Kind::Object, Kind::String]);
                Err(DefsError::new(DefsErrorDetail::UnexpectedPropType { kind: node.kind(), expected }))
            },
        }
    }

    /// Where the output goes.
    pub fn mode(&self) -> (m: &OutputMode)
        ensures
            m@ == self@.mode,
    {
        &self.mode
    }

    /// The output's format.
    pub fn format(&self) -> (f: FileFormat)
        ensures
            f == self@.format,
    {
        self.format
    }
}

/// A command's environment: variables with expressions for their values,
/// or a list of expressions that give the variables.
#[derive(Debug)]
pub enum TaskEnv {
    Mapping(EnvVars),
    List(Vec<Opath>),
}

/// A command's environment, as mathematics sees it.
pub enum TaskEnvV {
    Mapping(Seq<(Seq<char>, Seq<char>)>),
    List(Seq<Seq<char>>),
}

/// The texts of a list of expressions.
pub open spec fn opaths_view(v: Seq<Opath>) -> Seq<Seq<char>> {
    Seq::new(v.len(), |i: int| v[i]@)
}

impl View for TaskEnv {
    type V = TaskEnvV;

    open spec fn view(&self) -> TaskEnvV {
        match self {
            TaskEnv::Mapping(m) => TaskEnvV::Mapping(m@),
            TaskEnv::List(l) => TaskEnvV::List(opaths_view(l@)),
        }
    }
}

/// The variables the properties `props[0..k]` define; each value must be a
/// string holding an expression.
pub open spec fn env_from_props(props: Seq<(Seq<char>, NodeV)>, k: int) -> Result<Seq<(Seq<char>, Seq<char>)>, Seq<DetailV>>
    decreases k,
{
    if k <= 0 || k > props.len() {
        Ok(Seq::empty())
    } else {
        match env_from_props(props, k - 1) {
            Err(e) => Err(e),
            Ok(m) => match props[k - 1].1.value {
                ValueV::String(s) => Ok(env_insert(m, props[k - 1].0, expr_text(s))),
                _ => Err(seq![DetailV::EnvPropParseErr { prop: props[k - 1].0 }]),
            },
        }
    }
}

/// The expressions the elements `items[0..k]` give; each must be a string.
pub open spec fn env_from_items(items: Seq<NodeV>, k: int) -> Result<Seq<Seq<char>>, Seq<DetailV>>
    decreases k,
{
    if k <= 0 || k > items.len() {
        Ok(Seq::empty())
    } else {
        match env_from_items(items, k - 1) {
            Err(e) => Err(e),
            Ok(l) => match items[k - 1].value {
                ValueV::String(s) => Ok(l.push(expr_text(s))),
                _ => Err(seq![DetailV::EnvPropParseErr { prop: decimal((k - 1) as nat) }]),
            },
        }
    }
}

/// The environment a node gives: an object of expressions, an array of
/// expressions, or one expression; else an error.
pub open spec fn task_env_of(n: NodeV) -> Result<TaskEnvV, Seq<DetailV>> {
    match n.value {
        ValueV::Object(props) => match env_from_props(props, props.len() as int) {
            Ok(m) => Ok(TaskEnvV::Mapping(m)),
            Err(e) => Err(e),
        },
        ValueV::Array(items) => match env_from_items(items, items.len() as int) {
            Ok(l) => Ok(TaskEnvV::List(l)),
            Err(e) => Err(e),
        },
        ValueV::String(s) => Ok(TaskEnvV::List(seq![expr_text(s)])),
        _ => Err(
            seq![DetailV::UnexpectedPropType { kind: kind_of(n), expected: seq![Kind::Object, Kind::Array, Kind::String] }],
        ),
    }
}

/// Once reading environment properties failed, reading more fails the same way.
proof fn lemma_env_props_err(props: Seq<(Seq<char>, NodeV)>, k: int, k2: int)
    requires
        0 <= k <= k2 <= props.len(),
        env_from_props(props, k) is Err,
    ensures
        env_from_props(props, k2) == env_from_props(props, k),
    decreases k2 - k,
{
    if k2 > k {
        lemma_env_props_err(props, k, k2 - 1);
    }
}

/// Once reading environment elements failed, reading more fails the same way.
proof fn lemma_env_items_err(items: Seq<NodeV>, k: int, k2: int)
    requires
        0 <= k <= k2 <= items.len(),
        env_from_items(items, k) is Err,
    ensures
        env_from_items(items, k2) == env_from_items(items, k),
    decreases k2 - k,
{
    if k2 > k {
        lemma_env_items_err(items, k, k2 - 1);
    }
}

/// The decimal text of `n`.
fn decimal_string(n: usize) -> (s: String)
    ensures
        s@ == decimal(n as nat),
{
    let mut s = String::new();
    push_decimal(&mut s, n as u64);
    s
}

impl TaskEnv {
    /// The environment `n` gives. The values of an object or array are kept
    /// as expression text, whose syntax is not checked.
    #[verifier::loop_isolation(false)]
    pub fn parse(n: &Node) -> (r: Result<TaskEnv, DefsError>)
        ensures
            match r {
                Ok(t) => task_env_of(n@) == Ok::<_, Seq<DetailV>>(t@),
                Err(e) => task_env_of(n@) == Err::<TaskEnvV, _>(e@),
            },
    {
        match &n.value {
            Value::Object(props) => {
                proof {
                    lemma_props_view(props@, props@.len() as int);
                }
                let ghost pv = props_view(props@, props@.len() as int);
                let mut envs = EnvVars::new();
                let mut k: usize = 0;
                while k < props.len()
                    invariant
                        k <= props@.len(),
                        pv == props_view(props@, props@.len() as int),
                        pv.len() == props@.len(),
                        forall|j: int| 0 <= j < props@.len() ==> #[trigger] pv[j] == (props@[j].0@, props@[j].1@),
                        env_from_props(pv, k as int) == Ok::<_, Seq<DetailV>>(envs@),
                        n@.value == ValueV::Object(pv),
                    decreases props@.len() - k,
                {
                    assert(pv[k as int] == (props@[k as int].0@, props@[k as int].1@));
                    match &props[k].1.value {
                        Value::String(s) => {
                            let e = Opath::parse_opt_delims(s.as_str(), "${", "}");
                            envs.insert(props[k].0.clone(), e.expr);
                        },
                        _ => {
                            proof {
                                lemma_env_props_err(pv, k + 1, props@.len() as int);
                            }
                            return Err(DefsError::new(DefsErrorDetail::EnvPropParseErr { prop: props[k].0.clone() }));
                        },
                    }
                    k = k + 1;
                }
                Ok(TaskEnv::Mapping(envs))
            },
            Value::Array(items) => {
                proof {
                    lemma_nodes_view(items@, items@.len() as int);
                }
                let ghost iv = nodes_view(items@, items@.len() as int);
                let mut envs: Vec<Opath> = Vec::new();
                assert(opaths_view(envs@) =~= Seq::<Seq<char>>::empty());
                let mut k: usize = 0;
                while k < items.len()
                    invariant
                        k <= items@.len(),
                        iv == nodes_view(items@, items@.len() as int),
                        iv.len() == items@.len(),
                        forall|j: int| 0 <= j < items@.len() ==> #[trigger] iv[j] == items@[j]@,
                        env_from_items(iv, k as int) == Ok::<_, Seq<DetailV>>(opaths_view(envs@)),
                        n@.value == ValueV::Array(iv),
                    decreases items@.len() - k,
                {
                    assert(iv[k as int] == items@[k as int]@);
                    match &items[k].value {
                        Value::String(s) => {
                            let e = Opath::parse_opt_delims(s.as_str(), "${", "}");
                            envs.push(e);
                            assert(opaths_view(envs@) =~= env_from_items(iv, k + 1)->Ok_0);
                        },
                        _ => {
                            proof {
                                lemma_env_items_err(iv, k + 1, items@.len() as int);
                            }
                            return Err(DefsError::new(DefsErrorDetail::EnvPropParseErr { prop: decimal_string(k) }));
                        },
                    }
                    k = k + 1;
                }
                Ok(TaskEnv::List(envs))
            },
            Value::String(s) => {
                let e = Opath::parse_opt_delims(s.as_str(), "${", "}");
                let mut l: Vec<Opath> = Vec::new();
                l.push(e);
                assert(opaths_view(l@) =~= seq![expr_text(s@)]);
                Ok(TaskEnv::List(l))
            },
            _ => {
                let mut expected: Vec<Kind> = Vec::new();
                expected.push(Kind::Object);
                expected.push(Kind::Array);
                expected.push(Kind::String);
                assert(expected@ =~= seq![Kind::Object, Kind::Array, Kind::String]);
                Err(DefsError::new(DefsErrorDetail::UnexpectedPropType { kind: n.kind(), expected }))
            },
        }
    }
}

/// A task, as mathematics sees it.
pub struct TaskDefV {
    pub scope: Seq<(Seq<char>, ValueDefV)>,
    pub kind: TaskKind,
    pub read_only: bool,
    pub switch: Option<Seq<CaseV>>,
    pub output: Option<TaskOutputV>,
    pub env: Option<TaskEnvV>,
    pub id: Seq<char>,
    pub label: Seq<char>,
}

/// A case of a switch, as mathematics sees it.
pub struct CaseV {
    pub when: Seq<char>,
    pub proc: ProcDefV,
}

/// A step, as mathematics sees it.
pub struct StepV {
    pub index: nat,
    pub hosts: Option<Seq<char>>,
    pub tasks: Seq<TaskDefV>,
}

/// A procedure, as mathematics sees it.
pub struct ProcDefV {
    pub scope: Seq<(Seq<char>, ValueDefV)>,
    pub kind: ProcKind,
    pub model_watches: Seq<(Seq<char>, ChangeKindMask)>,
    pub file_watches: Seq<(Seq<char>, ChangeKindMask)>,
    pub run: Seq<StepV>,
    pub id: Seq<char>,
    pub label: Seq<char>,
    pub path: Seq<char>,
    pub dir: Seq<char>,
}

/// A value's children are smaller than it.
pub proof fn lemma_child_decreases(n: NodeV, key: Seq<char>)
    ensures
        child_of(n, key) matches Some(c) ==> decreases_to!(n => c),
{
    match n.value {
        ValueV::Object(props) => {
            lemma_prop_index(props, key);
            match prop_index(props, key) {
                Some(i) => {
                    assert(decreases_to!(n => n.value));
                    assert(decreases_to!(n.value => n.value->Object_0));
                    assert(decreases_to!(props => props[i]));
                    assert(decreases_to!(props[i] => props[i].1));
                },
                None => {},
            }
        },
        _ => {},
    }
}

/// The elements of an array value are smaller than it.
pub proof fn lemma_items_decrease(n: NodeV)
    ensures
        n.value matches ValueV::Array(items) ==> forall|j: int| 0 <= j < items.len() ==> decreases_to!(n => #[trigger] items[j]),
        n.value matches ValueV::Object(props) ==> forall|j: int| 0 <= j < props.len() ==> decreases_to!(n => #[trigger] props[j].1),
{
    match n.value {
        ValueV::Array(items) => {
            assert forall|j: int| 0 <= j < items.len() implies decreases_to!(n => #[trigger] items[j]) by {
                assert(decreases_to!(n => n.value));
                assert(decreases_to!(n.value => n.value->Array_0));
                assert(decreases_to!(items => items[j]));
            }
        },
        ValueV::Object(props) => {
            assert forall|j: int| 0 <= j < props.len() implies decreases_to!(n => #[trigger] props[j].1) by {
                assert(decreases_to!(n => n.value));
                assert(decreases_to!(n.value => n.value->Object_0));
                assert(decreases_to!(props => props[j]));
                assert(decreases_to!(props[j] => props[j].1));
            }
        },
        _ => {},
    }
}

/// The text the expression `a or b` gives where `b` is a fixed text: that
/// of property `a` where present and true, else `b`.
pub open spec fn prop_or(n: NodeV, a: Seq<char>, b: Seq<char>) -> Seq<char> {
    match child_of(n, a) {
        Some(x) if truth_of(x) => text_of(x),
        _ => b,
    }
}

/// The model watches of the properties of a `watch` object.
pub open spec fn model_watches_of(props: Seq<(Seq<char>, NodeV)>) -> Seq<(Seq<char>, ChangeKindMask)> {
    Seq::new(props.len(), |i: int| (props[i].0, mask_of(text_of(props[i].1))))
}

/// The file watches of the properties `props[0..k]` of a `watch_file`
/// object; each key must be a glob.
pub open spec fn file_watches_of(props: Seq<(Seq<char>, NodeV)>, k: int) -> Result<Seq<(Seq<char>, ChangeKindMask)>, Seq<DetailV>>
    decreases k,
{
    if k <= 0 || k > props.len() {
        Ok(Seq::empty())
    } else {
        match file_watches_of(props, k - 1) {
            Err(e) => Err(e),
            Ok(l) => if glob_usable(props[k - 1].0) {
                Ok(l.push((props[k - 1].0, mask_of(text_of(props[k - 1].1)))))
            } else {
                Err(seq![DetailV::ProcFileWatchParse { glob: props[k - 1].0 }])
            },
        }
    }
}

/// The watches a procedure's `watch` (`file` false) or `watch_file` (`file`
/// true) property gives: none where missing or null, an error where no object.
pub open spec fn watches_of(n: NodeV, file: bool) -> Result<Seq<(Seq<char>, ChangeKindMask)>, Seq<DetailV>> {
    match child_of(n, if file { "watch_file"@ } else { "watch"@ }) {
        None => Ok(Seq::empty()),
        Some(w) => match w.value {
            ValueV::Object(props) => if file {
                file_watches_of(props, props.len() as int)
            } else {
                Ok(model_watches_of(props))
            },
            ValueV::Null => Ok(Seq::empty()),
            _ => Err(seq![DetailV::ProcWatchNonObject { kind: kind_of(w) }]),
        },
    }
}

/// The kind a procedure definition gives: `exec` where it has a `when`
/// property, else the kind its `proc` property names.
pub open spec fn proc_kind_def(n: NodeV) -> Result<ProcKind, Seq<DetailV>> {
    if child_of(n, "when"@) is Some {
        Ok(ProcKind::Exec)
    } else {
        match child_of(n, "proc"@) {
            Some(p) => match proc_kind_of(text_of(p)) {
                Some(k) => Ok(k),
                None => Err(seq![DetailV::UnknownProcKind { value: text_of(p) }]),
            },
            None => Err(seq![DetailV::ProcMissingProc]),
        }
    }
}

/// The procedure a node defines.
pub open spec fn proc_of(n: NodeV) -> Result<ProcDefV, Seq<DetailV>>
    decreases n, 2int,
{
    match scope_def_of(n) {
        Err(e) => Err(e),
        Ok(scope) => match n.value {
            ValueV::Object(_) => match proc_kind_def(n) {
                Err(e) => Err(e),
                Ok(kind) => {
                    let mw = if kind == ProcKind::Update { watches_of(n, false) } else { Ok(Seq::empty()) };
                    let fw = if kind == ProcKind::Update { watches_of(n, true) } else { Ok(Seq::empty()) };
                    match mw {
                        Err(e) => Err(e),
                        Ok(mw) => match fw {
                            Err(e) => Err(e),
                            Ok(fw) => match run_of(n) {
                                Err(e) => Err(seq![DetailV::RunParse] + e),
                                Ok(run) => Ok(
                                    ProcDefV {
                                        scope,
                                        kind,
                                        model_watches: mw,
                                        file_watches: fw,
                                        run,
                                        id: prop_or(n, "id"@, n.key),
                                        label: prop_or(n, "label"@, prop_or(n, "id"@, n.key)),
                                        path: n.file_path_abs,
                                        dir: n.dir_abs,
                                    },
                                ),
                            },
                        },
                    }
                },
            },
            _ => Err(seq![DetailV::UnexpectedPropType { kind: kind_of(n), expected: seq![Kind::Object] }]),
        },
    }
}

/// The steps a procedure's `run` property gives: an array or an object of
/// steps; none where missing or null.
pub open spec fn run_of(n: NodeV) -> Result<Seq<StepV>, Seq<DetailV>>
    decreases n, 1int,
{
    match child_of(n, "run"@) {
        None => Ok(Seq::empty()),
        Some(r) => {
            proof {
                lemma_child_decreases(n, "run"@);
                lemma_items_decrease(r);
            }
            match r.value {
                ValueV::Array(items) => steps_of_items(items, items.len() as int),
                ValueV::Object(props) => steps_of_props(props, props.len() as int),
                ValueV::Null => Ok(Seq::empty()),
                _ => Err(
                    seq![DetailV::UnexpectedPropType { kind: kind_of(r), expected: seq![Kind::Array, Kind::Object] }],
                ),
            }
        },
    }
}

/// The steps the elements `items[0..k]` define, numbered in order.
pub open spec fn steps_of_items(items: Seq<NodeV>, k: int) -> Result<Seq<StepV>, Seq<DetailV>>
    decreases items, k,
{
    if k <= 0 || k > items.len() {
        Ok(Seq::empty())
    } else {
        match steps_of_items(items, k - 1) {
            Err(e) => Err(e),
            Ok(prev) => match step_of(items[k - 1]) {
                Err(e) => Err(seq![DetailV::StepParse { step: decimal((k - 1) as nat) }] + e),
                Ok(st) => Ok(prev.push(StepV { index: (k - 1) as nat, ..st })),
            },
        }
    }
}

/// The steps the properties `props[0..k]` define, numbered in order.
pub open spec fn steps_of_props(props: Seq<(Seq<char>, NodeV)>, k: int) -> Result<Seq<StepV>, Seq<DetailV>>
    decreases props, k,
{
    if k <= 0 || k > props.len() {
        Ok(Seq::empty())
    } else {
        match steps_of_props(props, k - 1) {
            Err(e) => Err(e),
            Ok(prev) => match step_of(props[k - 1].1) {
                Err(e) => Err(
                    seq![DetailV::StepParse { step: decimal((k - 1) as nat) + " ("@ + props[k - 1].0 + ")"@ }] + e,
                ),
                Ok(st) => Ok(prev.push(StepV { index: (k - 1) as nat, ..st })),
            },
        }
    }
}

/// The hosts expression of a step: that of its `hosts` property, which must
/// be an expression; none where missing.
pub open spec fn step_hosts_of(n: NodeV) -> Result<Option<Seq<char>>, Seq<DetailV>> {
    match child_of(n, "hosts"@) {
        Some(h) => match value_def_of(h) {
            ValueDefV::Static(_) => Err(seq![DetailV::StepStaticHosts]),
            ValueDefV::Resolvable(e) => Ok(Some(e)),
        },
        None => Ok(None),
    }
}

/// The step a node defines, numbered 0.
pub open spec fn step_of(n: NodeV) -> Result<StepV, Seq<DetailV>>
    decreases n, 0int,
{
    match n.value {
        ValueV::Object(_) => match step_hosts_of(n) {
            Err(e) => Err(e),
            Ok(hosts) => match child_of(n, "tasks"@) {
                Some(t) => {
                    proof {
                        lemma_child_decreases(n, "tasks"@);
                        lemma_items_decrease(t);
                    }
                    let tasks = match t.value {
                        ValueV::Array(items) => tasks_of_items(items, items.len() as int),
                        ValueV::Object(props) => tasks_of_props(props, props.len() as int),
                        _ => Err(
                            seq![DetailV::UnexpectedPropType { kind: kind_of(t), expected: seq![Kind::Array, Kind::Object] }],
                        ),
                    };
                    match tasks {
                        Err(e) => Err(e),
                        Ok(tasks) => Ok(StepV { index: 0, hosts, tasks }),
                    }
                },
                None => Err(seq![DetailV::StepMissingTasks]),
            },
        },
        _ => Err(seq![DetailV::UnexpectedPropType { kind: kind_of(n), expected: seq![Kind::Object] }]),
    }
}

/// The tasks the elements `items[0..k]` define.
pub open spec fn tasks_of_items(items: Seq<NodeV>, k: int) -> Result<Seq<TaskDefV>, Seq<DetailV>>
    decreases items, k,
{
    if k <= 0 || k > items.len() {
        Ok(Seq::empty())
    } else {
        match tasks_of_items(items, k - 1) {
            Err(e) => Err(e),
            Ok(prev) => match task_of(items[k - 1]) {
                Err(e) => Err(e),
                Ok(t) => Ok(prev.push(t)),
            },
        }
    }
}

/// The tasks the values of properties `props[0..k]` define.
pub open spec fn tasks_of_props(props: Seq<(Seq<char>, NodeV)>, k: int) -> Result<Seq<TaskDefV>, Seq<DetailV>>
    decreases props, k,
{
    if k <= 0 || k > props.len() {
        Ok(Seq::empty())
    } else {
        match tasks_of_props(props, k - 1) {
            Err(e) => Err(e),
            Ok(prev) => match task_of(props[k - 1].1) {
                Err(e) => Err(e),
                Ok(t) => Ok(prev.push(t)),
            },
        }
    }
}

/// The kind a task definition's `task` property names.
pub open spec fn task_kind_def(n: NodeV) -> Result<TaskKind, Seq<DetailV>> {
    match child_of(n, "task"@) {
        Some(t) => match task_kind_of(text_of(t)) {
            Some(k) => Ok(k),
            None => Err(seq![DetailV::UnknownTaskKind { value: text_of(t) }]),
        },
        None => Err(seq![DetailV::TaskMissingTask]),
    }
}

/// The default name of a task: its `task` property, a dash, and its key.
pub open spec fn task_default_id(n: NodeV) -> Seq<char> {
    match child_of(n, "task"@) {
        Some(t) => text_of(t) + "-"@ + n.key,
        None => "-"@ + n.key,
    }
}

/// The environment of a task of kind `kind`: that of its `env` property,
/// for commands and scripts only.
pub open spec fn task_env_def(n: NodeV, kind: TaskKind) -> Result<Option<TaskEnvV>, Seq<DetailV>> {
    if kind == TaskKind::Command || kind == TaskKind::Script {
        match child_of(n, "env"@) {
            Some(e) => match task_env_of(e) {
                Ok(env) => Ok(Some(env)),
                Err(x) => Err(seq![DetailV::EnvParse] + x),
            },
            None => Ok(None),
        }
    } else {
        Ok(None)
    }
}

/// The output of a task: that of its `output` property.
pub open spec fn task_output_def(n: NodeV) -> Result<Option<TaskOutputV>, Seq<DetailV>> {
    match child_of(n, "output"@) {
        Some(o) => match task_output_of(o) {
            Ok(out) => Ok(Some(out)),
            Err(x) => Err(seq![DetailV::OutputParse] + x),
        },
        None => Ok(None),
    }
}

/// The task a node defines.
pub open spec fn task_of(n: NodeV) -> Result<TaskDefV, Seq<DetailV>>
    decreases n, 0int,
{
    match scope_def_of(n) {
        Err(e) => Err(e),
        Ok(scope) => match n.value {
            ValueV::Object(_) => match task_kind_def(n) {
                Err(e) => Err(e),
                Ok(kind) => {
                    let read_only = match child_of(n, "ro"@) {
                        Some(r) => truth_of(r),
                        None => false,
                    };
                    match task_env_def(n, kind) {
                        Err(e) => Err(e),
                        Ok(env) => {
                            let switch: Result<Option<Seq<CaseV>>, Seq<DetailV>> = if kind == TaskKind::Switch {
                                match child_of(n, "cases"@) {
                                    Some(c) => {
                                        proof {
                                            lemma_child_decreases(n, "cases"@);
                                        }
                                        match switch_of(c) {
                                            Ok(cases) => Ok(Some(cases)),
                                            Err(x) => Err(seq![DetailV::SwitchParse] + x),
                                        }
                                    },
                                    None => Err(seq![DetailV::TaskSwitchMissingCases]),
                                }
                            } else {
                                Ok(None)
                            };
                            match switch {
                                Err(e) => Err(e),
                                Ok(switch) => match task_output_def(n) {
                                    Err(e) => Err(e),
                                    Ok(output) => Ok(
                                        TaskDefV {
                                            scope,
                                            kind,
                                            read_only,
                                            switch,
                                            output,
                                            env,
                                            id: prop_or(n, "id"@, task_default_id(n)),
                                            label: prop_or(n, "label"@, prop_or(n, "id"@, task_default_id(n))),
                                        },
                                    ),
                                },
                            }
                        },
                    }
                },
            },
            _ => Err(seq![DetailV::UnexpectedPropType { kind: kind_of(n), expected: seq![Kind::Object] }]),
        },
    }
}

/// The cases of a switch: an array of case definitions.
pub open spec fn switch_of(n: NodeV) -> Result<Seq<CaseV>, Seq<DetailV>>
    decreases n, 0int,
{
    match n.value {
        ValueV::Array(items) => {
            proof {
                lemma_items_decrease(n);
            }
            cases_of_items(items, items.len() as int)
        },
        _ => Err(seq![DetailV::TaskSwitchNonArray { kind: kind_of(n) }]),
    }
}

/// The cases the elements `items[0..k]` define.
pub open spec fn cases_of_items(items: Seq<NodeV>, k: int) -> Result<Seq<CaseV>, Seq<DetailV>>
    decreases items, k,
{
    if k <= 0 || k > items.len() {
        Ok(Seq::empty())
    } else {
        match cases_of_items(items, k - 1) {
            Err(e) => Err(e),
            Ok(prev) => match case_of(items[k - 1]) {
                Err(e) => Err(e),
                Ok(c) => Ok(prev.push(c)),
            },
        }
    }
}

/// The case a node defines: a `when` expression, and the procedure the same
/// node defines.
pub open spec fn case_of(n: NodeV) -> Result<CaseV, Seq<DetailV>>
    decreases n, 3int,
{
    match n.value {
        ValueV::Object(_) => match child_of(n, "when"@) {
            Some(w) => match value_def_of(w) {
                ValueDefV::Resolvable(e) => match proc_of(n) {
                    Err(x) => Err(x),
                    Ok(p) => Ok(CaseV { when: e, proc: p }),
                },
                ValueDefV::Static(_) => Err(seq![DetailV::TaskCaseStaticWhen]),
            },
            None => Err(seq![DetailV::TaskCaseMissingWhen]),
        },
        _ => Err(seq![DetailV::TaskCaseNonObject { kind: kind_of(n) }]),
    }
}

/// A procedure: its variables, kind, watches (for updaters), steps, name,
/// label, and the file and directory it was defined in.
#[derive(Debug)]
pub struct ProcDef {
    scope_def: ScopeDef,
    kind: ProcKind,
    model_watches: Vec<ModelWatch>,
    file_watches: Vec<FileWatch>,
    run: RunDef,
    id: String,
    label: String,
    path: String,
    dir: String,
}

/// The steps of a procedure.
#[derive(Debug)]
pub struct RunDef {
    steps: Vec<Step>,
}

/// A step: its number, the expression selecting its hosts (all hosts where
/// none), and its tasks.
#[derive(Debug)]
pub struct Step {
    index: usize,
    hosts: Option<Opath>,
    tasks: Vec<TaskDef>,
}

/// A task: its variables, kind, whether it only reads, its cases (for a
/// switch), output, environment (for commands and scripts), name and label.
#[derive(Debug)]
pub struct TaskDef {
    scope_def: ScopeDef,
    kind: TaskKind,
    read_only: bool,
    switch: Option<Switch>,
    output: Option<TaskOutput>,
    env: Option<TaskEnv>,
    id: String,
    label: String,
}

/// The cases of a switch task.
#[derive(Debug)]
pub struct Switch {
    cases: Vec<Case>,
}

/// A case of a switch: when it applies, and the procedure it runs.
#[derive(Debug)]
pub struct Case {
    when: Opath,
    proc: ProcDef,
}

/// The view of a procedure.
pub closed spec fn proc_view(p: ProcDef) -> ProcDefV
    decreases p, 0int,
{
    ProcDefV {
        scope: p.scope_def@,
        kind: p.kind,
        model_watches: Seq::new(
            p.model_watches@.len(),
            |i: int| (p.model_watches@[i].path_v(), p.model_watches@[i].mask_v()),
        ),
        file_watches: Seq::new(
            p.file_watches@.len(),
            |i: int| (p.file_watches@[i].glob_v(), p.file_watches@[i].mask_v()),
        ),
        run: steps_view(p.run.steps@, p.run.steps@.len() as int),
        id: p.id@,
        label: p.label@,
        path: p.path@,
        dir: p.dir@,
    }
}

/// The views of the first `k` steps.
pub closed spec fn steps_view(s: Seq<Step>, k: int) -> Seq<StepV>
    decreases s, k,
{
    if k <= 0 || k > s.len() {
        Seq::empty()
    } else {
        steps_view(s, k - 1).push(step_view(s[k - 1]))
    }
}

/// The view of a step.
pub closed spec fn step_view(st: Step) -> StepV
    decreases st, 0int,
{
    StepV {
        index: st.index as nat,
        hosts: match st.hosts {
            Some(o) => Some(o@),
            None => None,
        },
        tasks: tasks_view(st.tasks@, st.tasks@.len() as int),
    }
}

/// The views of the first `k` tasks.
pub closed spec fn tasks_view(s: Seq<TaskDef>, k: int) -> Seq<TaskDefV>
    decreases s, k,
{
    if k <= 0 || k > s.len() {
        Seq::empty()
    } else {
        tasks_view(s, k - 1).push(task_view(s[k - 1]))
    }
}

/// The view of a task.
pub closed spec fn task_view(t: TaskDef) -> TaskDefV
    decreases t, 0int,
{
    TaskDefV {
        scope: t.scope_def@,
        kind: t.kind,
        read_only: t.read_only,
        switch: match t.switch {
            Some(sw) => Some(cases_view(sw.cases@, sw.cases@.len() as int)),
            None => None,
        },
        output: match t.output {
            Some(o) => Some(o@),
            None => None,
        },
        env: match t.env {
            Some(e) => Some(e@),
            None => None,
        },
        id: t.id@,
        label: t.label@,
    }
}

/// The views of the first `k` cases.
pub closed spec fn cases_view(s: Seq<Case>, k: int) -> Seq<CaseV>
    decreases s, k,
{
    if k <= 0 || k > s.len() {
        Seq::empty()
    } else {
        cases_view(s, k - 1).push(case_view(s[k - 1]))
    }
}

/// The view of a case.
pub closed spec fn case_view(c: Case) -> CaseV
    decreases c, 0int,
{
    CaseV { when: c.when@, proc: proc_view(c.proc) }
}

impl View for ProcDef {
    type V = ProcDefV;

    open spec fn view(&self) -> ProcDefV {
        proc_view(*self)
    }
}

impl View for Step {
    type V = StepV;

    open spec fn view(&self) -> StepV {
        step_view(*self)
    }
}

impl View for TaskDef {
    type V = TaskDefV;

    open spec fn view(&self) -> TaskDefV {
        task_view(*self)
    }
}

impl View for Case {
    type V = CaseV;

    open spec fn view(&self) -> CaseV {
        case_view(*self)
    }
}

impl View for RunDef {
    type V = Seq<StepV>;

    closed spec fn view(&self) -> Seq<StepV> {
        steps_view(self.steps@, self.steps@.len() as int)
    }
}

impl View for Switch {
    type V = Seq<CaseV>;

    closed spec fn view(&self) -> Seq<CaseV> {
        cases_view(self.cases@, self.cases@.len() as int)
    }
}

/// Adding a step leaves the views of the ones before it alone.
proof fn lemma_steps_view_push(s: Seq<Step>, x: Step, k: int)
    requires
        0 <= k <= s.len(),
    ensures
        steps_view(s.push(x), k) == steps_view(s, k),
    decreases k,
{
    if k > 0 {
        lemma_steps_view_push(s, x, k - 1);
        assert(s.push(x)[k - 1] == s[k - 1]);
    }
}

/// Adding a task leaves the views of the ones before it alone.
proof fn lemma_tasks_view_push(s: Seq<TaskDef>, x: TaskDef, k: int)
    requires
        0 <= k <= s.len(),
    ensures
        tasks_view(s.push(x), k) == tasks_view(s, k),
    decreases k,
{
    if k > 0 {
        lemma_tasks_view_push(s, x, k - 1);
        assert(s.push(x)[k - 1] == s[k - 1]);
    }
}

/// Adding a case leaves the views of the ones before it alone.
proof fn lemma_cases_view_push(s: Seq<Case>, x: Case, k: int)
    requires
        0 <= k <= s.len(),
    ensures
        cases_view(s.push(x), k) == cases_view(s, k),
    decreases k,
{
    if k > 0 {
        lemma_cases_view_push(s, x, k - 1);
        assert(s.push(x)[k - 1] == s[k - 1]);
    }
}

/// The kinds a definition was expected to be.
fn kinds(a: Kind, b: Option<Kind>) -> (v: Vec<Kind>)
    ensures
        v@ == match b {
            Some(b) => seq![a, b],
            None => seq![a],
        },
{
    let mut v: Vec<Kind> = Vec::new();
    v.push(a);
    match b {
        Some(b) => v.push(b),
        None => {},
    }
    assert(v@ =~= match b {
        Some(b) => seq![a, b],
        None => seq![a],
    });
    v
}

/// The text of property `a` of `n` where present and true, else `b`.
fn prop_or_text(n: &Node, a: &str, b: String) -> (s: String)
    ensures
        s@ == prop_or(n@, a@, b@),
{
    match n.get_child_key(a) {
        Some(x) => {
            if x.as_boolean() {
                return x.as_string();
            }
        },
        None => {},
    }
    b
}

impl ProcDef {
    /// The procedure `node` defines.
    #[verifier::loop_isolation(false)]
    pub fn parse(node: &Node) -> (r: Result<ProcDef, DefsError>)
        ensures
            match r {
                Ok(p) => proc_of(node@) == Ok::<_, Seq<DetailV>>(p@),
                Err(e) => proc_of(node@) == Err::<ProcDefV, _>(e@),
            },
        decreases node@, 2int,
    {
        proof {
            reveal_strlit("when");
            reveal_strlit("proc");
            reveal_strlit("watch");
            reveal_strlit("watch_file");
            reveal_strlit("id");
            reveal_strlit("label");
        }
        let scope = match ScopeDef::parse(node) {
            Ok(s) => s,
            Err(e) => return Err(e),
        };
        match &node.value {
            Value::Object(_) => {},
            _ => {
                return Err(DefsError::new(DefsErrorDetail::UnexpectedPropType { kind: node.kind(), expected: kinds(Kind::Object, None) }));
            },
        }
        let kind = if node.get_child_key("when").is_some() {
            ProcKind::Exec
        } else {
            match node.get_child_key("proc") {
                Some(p) => {
                    let t = p.as_string();
                    match ProcKind::from_str(t.as_str()) {
                        Ok(k) => k,
                        Err(d) => return Err(DefsError::new(d)),
                    }
                },
                None => return Err(DefsError::new(DefsErrorDetail::ProcMissingProc)),
            }
        };
        assert(proc_kind_def(node@) == Ok::<_, Seq<DetailV>>(kind));
        let mut model_watches: Vec<ModelWatch> = Vec::new();
        let mut file_watches: Vec<FileWatch> = Vec::new();
        if kind == ProcKind::Update {
            match node.get_child_key("watch") {
                Some(wn) => match &wn.value {
                    Value::Object(props) => {
                        proof {
                            lemma_props_view(props@, props@.len() as int);
                        }
                        let ghost pv = props_view(props@, props@.len() as int);
                        let mut k: usize = 0;
                        while k < props.len()
                            invariant
                                k <= props@.len(),
                                pv.len() == props@.len(),
                                forall|j: int| 0 <= j < props@.len() ==> #[trigger] pv[j] == (props@[j].0@, props@[j].1@),
                                model_watches@.len() == k,
                                forall|j: int| 0 <= j < k ==> (#[trigger] model_watches@[j]).path_v() == pv[j].0
                                    && model_watches@[j].mask_v() == mask_of(text_of(pv[j].1)),
                            decreases props@.len() - k,
                        {
                            let t = props[k].1.as_string();
                            let w = ModelWatch::parse(props[k].0.as_str(), t.as_str());
                            model_watches.push(w);
                            k = k + 1;
                        }
                        proof {
                            assert(Seq::new(model_watches@.len(), |i: int| (model_watches@[i].path_v(), model_watches@[i].mask_v()))
                                =~= model_watches_of(pv));
                        }
                    },
                    Value::Null => {},
                    _ => {
                        return Err(DefsError::new(DefsErrorDetail::ProcWatchNonObject { kind: wn.kind() }));
                    },
                },
                None => {},
            }
            match node.get_child_key("watch_file") {
                Some(wn) => match &wn.value {
                    Value::Object(props) => {
                        proof {
                            lemma_props_view(props@, props@.len() as int);
                        }
                        let ghost pv = props_view(props@, props@.len() as int);
                        assert(Seq::new(file_watches@.len(), |i: int| (file_watches@[i].glob_v(), file_watches@[i].mask_v()))
                            =~= Seq::<(Seq<char>, ChangeKindMask)>::empty());
                        let mut k: usize = 0;
                        while k < props.len()
                            invariant
                                k <= props@.len(),
                                pv.len() == props@.len(),
                                forall|j: int| 0 <= j < props@.len() ==> #[trigger] pv[j] == (props@[j].0@, props@[j].1@),
                                file_watches_of(pv, k as int) == Ok::<_, Seq<DetailV>>(
                                    Seq::new(file_watches@.len(), |i: int| (file_watches@[i].glob_v(), file_watches@[i].mask_v())),
                                ),
                            decreases props@.len() - k,
                        {
                            let t = props[k].1.as_string();
                            match FileWatch::parse(props[k].0.as_str(), t.as_str()) {
                                Ok(w) => {
                                    let ghost before = file_watches@;
                                    file_watches.push(w);
                                    proof {
                                        assert(Seq::new(file_watches@.len(), |i: int| (file_watches@[i].glob_v(), file_watches@[i].mask_v()))
                                            =~= Seq::new(before.len(), |i: int| (before[i].glob_v(), before[i].mask_v())).push((w.glob_v(), w.mask_v())));
                                    }
                                },
                                Err(e) => {
                                    proof {
                                        lemma_file_watches_err(pv, k + 1, props@.len() as int);
                                    }
                                    return Err(e);
                                },
                            }
                            k = k + 1;
                        }
                    },
                    Value::Null => {},
                    _ => {
                        return Err(DefsError::new(DefsErrorDetail::ProcWatchNonObject { kind: wn.kind() }));
                    },
                },
                None => {},
            }
        }
        let run = match RunDef::parse(node) {
            Ok(r) => r,
            Err(e) => return Err(DefsError::with_cause(DefsErrorDetail::RunParse, e)),
        };
        let id = prop_or_text(node, "id", node.key.clone());
        let label = prop_or_text(node, "label", prop_or_text(node, "id", node.key.clone()));
        let p = ProcDef {
            scope_def: scope,
            kind,
            model_watches,
            file_watches,
            run,
            id,
            label,
            path: node.file_path_abs.clone(),
            dir: node.dir_abs.clone(),
        };
        proof {
            if kind == ProcKind::Update {
                assert(p@.model_watches =~= watches_of(node@, false)->Ok_0);
                assert(p@.file_watches =~= watches_of(node@, true)->Ok_0);
            } else {
                assert(p@.model_watches =~= Seq::<(Seq<char>, ChangeKindMask)>::empty());
                assert(p@.file_watches =~= Seq::<(Seq<char>, ChangeKindMask)>::empty());
            }
        }
        Ok(p)
    }

    /// The procedure's name.
    pub fn id(&self) -> (s: &str)
        ensures
            s@ == self@.id,
    {
        self.id.as_str()
    }

    /// The procedure's label.
    pub fn label(&self) -> (s: &str)
        ensures
            s@ == self@.label,
    {
        self.label.as_str()
    }

    /// The absolute path of the file the procedure was defined in.
    pub fn path(&self) -> (s: &str)
        ensures
            s@ == self@.path,
    {
        self.path.as_str()
    }

    /// The absolute path of the directory of that file.
    pub fn dir(&self) -> (s: &str)
        ensures
            s@ == self@.dir,
    {
        self.dir.as_str()
    }

    /// The procedure's kind.
    pub fn kind(&self) -> (k: ProcKind)
        ensures
            k == self@.kind,
    {
        self.kind
    }

    /// The procedure's steps.
    pub fn run(&self) -> (r: &RunDef)
        ensures
            r@ == self@.run,
    {
        &self.run
    }

    /// The procedure's variable definitions.
    pub fn scope_def(&self) -> (d: &ScopeDef)
        ensures
            d@ == self@.scope,
    {
        &self.scope_def
    }

    /// What the procedure watches in the model.
    pub fn model_watches(&self) -> (w: &Vec<ModelWatch>)
        ensures
            w@.len() == self@.model_watches.len(),
            forall|i: int| 0 <= i < w@.len() ==> self@.model_watches[i] == (#[trigger] w@[i].path_v(), w@[i].mask_v()),
    {
        &self.model_watches
    }

    /// What the procedure watches among files.
    pub fn file_watches(&self) -> (w: &Vec<FileWatch>)
        ensures
            w@.len() == self@.file_watches.len(),
            forall|i: int| 0 <= i < w@.len() ==> self@.file_watches[i] == (#[trigger] w@[i].glob_v(), w@[i].mask_v()),
    {
        &self.file_watches
    }
}

/// Once reading file watches failed, reading more fails the same way.
proof fn lemma_file_watches_err(props: Seq<(Seq<char>, NodeV)>, k: int, k2: int)
    requires
        0 <= k <= k2 <= props.len(),
        file_watches_of(props, k) is Err,
    ensures
        file_watches_of(props, k2) == file_watches_of(props, k),
    decreases k2 - k,
{
    if k2 > k {
        lemma_file_watches_err(props, k, k2 - 1);
    }
}

/// The steps the elements of an array define, numbered in order; `node`
/// holds the array.
#[verifier::loop_isolation(false)]
fn steps_of_array(node: &Node, items: &Vec<Node>) -> (r: Result<Vec<Step>, DefsError>)
    requires
        forall|j: int| 0 <= j < items@.len() ==> decreases_to!(node@ => #[trigger] items@[j]@),
    ensures
        match r {
            Ok(v) => steps_of_items(nodes_view(items@, items@.len() as int), items@.len() as int)
                == Ok::<_, Seq<DetailV>>(steps_view(v@, v@.len() as int)),
            Err(e) => steps_of_items(nodes_view(items@, items@.len() as int), items@.len() as int)
                == Err::<Seq<StepV>, _>(e@),
        },
    decreases node@, 0int,
{
    proof {
        lemma_nodes_view(items@, items@.len() as int);
    }
    let ghost iv = nodes_view(items@, items@.len() as int);
    let mut steps: Vec<Step> = Vec::new();
    let mut k: usize = 0;
    while k < items.len()
        invariant
            k <= items@.len(),
            steps@.len() == k,
            steps_of_items(iv, k as int) == Ok::<_, Seq<DetailV>>(steps_view(steps@, k as int)),
        decreases items@.len() - k,
    {
        assert(iv[k as int] == items@[k as int]@);
        assert(decreases_to!(node@ => items@[k as int]@));
        match Step::parse(&items[k]) {
            Ok(st) => {
                let ghost st0 = st@;
                let mut st = st;
                st.index = steps.len();
                proof {
                    assert(st@ == StepV { index: k as nat, ..st0 });
                    lemma_steps_view_push(steps@, st, k as int);
                }
                steps.push(st);
            },
            Err(e) => {
                proof {
                    lemma_steps_items_err(iv, k + 1, items@.len() as int);
                }
                return Err(DefsError::with_cause(DefsErrorDetail::StepParse { step: decimal_string(k) }, e));
            },
        }
        k = k + 1;
    }
    Ok(steps)
}

/// The steps the values of an object's properties define, numbered in
/// order; `node` holds the object.
#[verifier::loop_isolation(false)]
fn steps_of_object(node: &Node, props: &Vec<(String, Node)>) -> (r: Result<Vec<Step>, DefsError>)
    requires
        forall|j: int| 0 <= j < props@.len() ==> decreases_to!(node@ => #[trigger] props@[j].1@),
    ensures
        match r {
            Ok(v) => steps_of_props(props_view(props@, props@.len() as int), props@.len() as int)
                == Ok::<_, Seq<DetailV>>(steps_view(v@, v@.len() as int)),
            Err(e) => steps_of_props(props_view(props@, props@.len() as int), props@.len() as int)
                == Err::<Seq<StepV>, _>(e@),
        },
    decreases node@, 0int,
{
    proof {
        lemma_props_view(props@, props@.len() as int);
        reveal_strlit(" (");
        reveal_strlit(")");
    }
    let ghost pv = props_view(props@, props@.len() as int);
    let mut steps: Vec<Step> = Vec::new();
    let mut k: usize = 0;
    while k < props.len()
        invariant
            k <= props@.len(),
            steps@.len() == k,
            steps_of_props(pv, k as int) == Ok::<_, Seq<DetailV>>(steps_view(steps@, k as int)),
        decreases props@.len() - k,
    {
        assert(pv[k as int] == (props@[k as int].0@, props@[k as int].1@));
        assert(decreases_to!(node@ => props@[k as int].1@));
        match Step::parse(&props[k].1) {
            Ok(st) => {
                let ghost st0 = st@;
                let mut st = st;
                st.index = steps.len();
                proof {
                    assert(st@ == StepV { index: k as nat, ..st0 });
                    lemma_steps_view_push(steps@, st, k as int);
                }
                steps.push(st);
            },
            Err(e) => {
                proof {
                    lemma_steps_props_err(pv, k + 1, props@.len() as int);
                }
                let mut label = decimal_string(k);
                push_str(&mut label, " (");
                push_str(&mut label, props[k].0.as_str());
                push_str(&mut label, ")");
                return Err(DefsError::with_cause(DefsErrorDetail::StepParse { step: label }, e));
            },
        }
        k = k + 1;
    }
    Ok(steps)
}

impl RunDef {
    /// No steps.
    pub fn new() -> (r: RunDef)
        ensures
            r@ == Seq::<StepV>::empty(),
    {
        RunDef { steps: Vec::new() }
    }

    /// The steps of the procedure `node` defines.
    pub fn parse(node: &Node) -> (r: Result<RunDef, DefsError>)
        ensures
            match r {
                Ok(run) => run_of(node@) == Ok::<_, Seq<DetailV>>(run@),
                Err(e) => run_of(node@) == Err::<Seq<StepV>, _>(e@),
            },
        decreases node@, 1int,
    {
        proof {
            reveal_strlit("run");
        }
        match node.get_child_key("run") {
            None => Ok(RunDef { steps: Vec::new() }),
            Some(r) => {
                proof {
                    lemma_child_decreases(node@, "run"@);
                    lemma_items_decrease(r@);
                }
                match &r.value {
                    Value::Array(items) => {
                        proof {
                            lemma_nodes_view(items@, items@.len() as int);
                            assert forall|j: int| 0 <= j < items@.len() implies decreases_to!(node@ => #[trigger] items@[j]@) by {
                                assert(nodes_view(items@, items@.len() as int)[j] == items@[j]@);
                            }
                        }
                        match steps_of_array(node, items) {
                            Ok(steps) => Ok(RunDef { steps }),
                            Err(e) => Err(e),
                        }
                    },
                    Value::Object(props) => {
                        proof {
                            lemma_props_view(props@, props@.len() as int);
                            assert forall|j: int| 0 <= j < props@.len() implies decreases_to!(node@ => #[trigger] props@[j].1@) by {
                                assert(props_view(props@, props@.len() as int)[j].1 == props@[j].1@);
                            }
                        }
                        match steps_of_object(node, props) {
                            Ok(steps) => Ok(RunDef { steps }),
                            Err(e) => Err(e),
                        }
                    },
                    Value::Null => Ok(RunDef { steps: Vec::new() }),
                    _ => {
                        Err(DefsError::new(DefsErrorDetail::UnexpectedPropType {
                            kind: r.kind(),
                            expected: kinds(Kind::Array, Some(Kind::Object)),
                        }))
                    },
                }
            },
        }
    }

    /// The steps, in order.
    pub fn steps(&self) -> (s: &Vec<Step>)
        ensures
            s@.len() == self@.len(),
            forall|i: int| 0 <= i < s@.len() ==> #[trigger] s@[i]@ == self@[i],
    {
        proof {
            lemma_steps_view(self.steps@, self.steps@.len() as int);
        }
        &self.steps
    }
}

/// The view of the first `k` steps holds one view per step.
proof fn lemma_steps_view(s: Seq<Step>, k: int)
    requires
        0 <= k <= s.len(),
    ensures
        steps_view(s, k).len() == k,
        forall|i: int| 0 <= i < k ==> #[trigger] steps_view(s, k)[i] == step_view(s[i]),
    decreases k,
{
    if k > 0 {
        lemma_steps_view(s, k - 1);
    }
}

/// The view of the first `k` tasks holds one view per task.
proof fn lemma_tasks_view(s: Seq<TaskDef>, k: int)
    requires
        0 <= k <= s.len(),
    ensures
        tasks_view(s, k).len() == k,
        forall|i: int| 0 <= i < k ==> #[trigger] tasks_view(s, k)[i] == task_view(s[i]),
    decreases k,
{
    if k > 0 {
        lemma_tasks_view(s, k - 1);
    }
}

/// The view of the first `k` cases holds one view per case.
proof fn lemma_cases_view(s: Seq<Case>, k: int)
    requires
        0 <= k <= s.len(),
    ensures
        cases_view(s, k).len() == k,
        forall|i: int| 0 <= i < k ==> #[trigger] cases_view(s, k)[i] == case_view(s[i]),
    decreases k,
{
    if k > 0 {
        lemma_cases_view(s, k - 1);
    }
}

/// Once reading steps of an array failed, reading more fails the same way.
proof fn lemma_steps_items_err(items: Seq<NodeV>, k: int, k2: int)
    requires
        0 <= k <= k2 <= items.len(),
        steps_of_items(items, k) is Err,
    ensures
        steps_of_items(items, k2) == steps_of_items(items, k),
    decreases k2 - k,
{
    if k2 > k {
        lemma_steps_items_err(items, k, k2 - 1);
    }
}

/// Once reading steps of an object failed, reading more fails the same way.
proof fn lemma_steps_props_err(props: Seq<(Seq<char>, NodeV)>, k: int, k2: int)
    requires
        0 <= k <= k2 <= props.len(),
        steps_of_props(props, k) is Err,
    ensures
        steps_of_props(props, k2) == steps_of_props(props, k),
    decreases k2 - k,
{
    if k2 > k {
        lemma_steps_props_err(props, k, k2 - 1);
    }
}

/// Once reading tasks of an array failed, reading more fails the same way.
proof fn lemma_tasks_items_err(items: Seq<NodeV>, k: int, k2: int)
    requires
        0 <= k <= k2 <= items.len(),
        tasks_of_items(items, k) is Err,
    ensures
        tasks_of_items(items, k2) == tasks_of_items(items, k),
    decreases k2 - k,
{
    if k2 > k {
        lemma_tasks_items_err(items, k, k2 - 1);
    }
}

/// Once reading tasks of an object failed, reading more fails the same way.
proof fn lemma_tasks_props_err(props: Seq<(Seq<char>, NodeV)>, k: int, k2: int)
    requires
        0 <= k <= k2 <= props.len(),
        tasks_of_props(props, k) is Err,
    ensures
        tasks_of_props(props, k2) == tasks_of_props(props, k),
    decreases k2 - k,
{
    if k2 > k {
        lemma_tasks_props_err(props, k, k2 - 1);
    }
}

/// Once reading cases failed, reading more fails the same way.
proof fn lemma_cases_items_err(items: Seq<NodeV>, k: int, k2: int)
    requires
        0 <= k <= k2 <= items.len(),
        cases_of_items(items, k) is Err,
    ensures
        cases_of_items(items, k2) == cases_of_items(items, k),
    decreases k2 - k,
{
    if k2 > k {
        lemma_cases_items_err(items, k, k2 - 1);
    }
}

impl Step {
    /// The step `node` defines, numbered 0.
    #[verifier::loop_isolation(false)]
    pub fn parse(node: &Node) -> (r: Result<Step, DefsError>)
        ensures
            match r {
                Ok(st) => step_of(node@) == Ok::<_, Seq<DetailV>>(st@),
                Err(e) => step_of(node@) == Err::<StepV, _>(e@),
            },
        decreases node@, 0int,
    {
        proof {
            reveal_strlit("hosts");
            reveal_strlit("tasks");
        }
        match &node.value {
            Value::Object(_) => {},
            _ => {
                return Err(DefsError::new(DefsErrorDetail::UnexpectedPropType { kind: node.kind(), expected: kinds(Kind::Object, None) }));
            },
        }
        let hosts = match node.get_child_key("hosts") {
            Some(h) => match ValueDef::parse(h) {
                ValueDef::Static(_) => return Err(DefsError::new(DefsErrorDetail::StepStaticHosts)),
                ValueDef::Resolvable(e) => Some(e),
            },
            None => None,
        };
        let mut tasks: Vec<TaskDef> = Vec::new();
        match node.get_child_key("tasks") {
            Some(t) => {
                proof {
                    lemma_child_decreases(node@, "tasks"@);
                    lemma_items_decrease(t@);
                }
                match &t.value {
                    Value::Array(items) => {
                        proof {
                            lemma_nodes_view(items@, items@.len() as int);
                        }
                        let ghost iv = nodes_view(items@, items@.len() as int);
                        let mut k: usize = 0;
                        while k < items.len()
                            invariant
                                k <= items@.len(),
                                iv.len() == items@.len(),
                                t@.value == ValueV::Array(iv),
                                forall|j: int| 0 <= j < items@.len() ==> #[trigger] iv[j] == items@[j]@,
                                forall|j: int| 0 <= j < items@.len() ==> decreases_to!(node@ => #[trigger] iv[j]),
                                tasks@.len() == k,
                                tasks_of_items(iv, k as int) == Ok::<_, Seq<DetailV>>(tasks_view(tasks@, k as int)),
                            decreases items@.len() - k,
                        {
                            assert(iv[k as int] == items@[k as int]@);
                            assert(decreases_to!(node@ => items@[k as int]@));
                            match TaskDef::parse(&items[k]) {
                                Ok(td) => {
                                    proof {
                                        lemma_tasks_view_push(tasks@, td, k as int);
                                    }
                                    tasks.push(td);
                                },
                                Err(e) => {
                                    proof {
                                        lemma_tasks_items_err(iv, k + 1, items@.len() as int);
                                    }
                                    return Err(e);
                                },
                            }
                            k = k + 1;
                        }
                    },
                    Value::Object(props) => {
                        proof {
                            lemma_props_view(props@, props@.len() as int);
                        }
                        let ghost pv = props_view(props@, props@.len() as int);
                        let mut k: usize = 0;
                        while k < props.len()
                            invariant
                                k <= props@.len(),
                                pv.len() == props@.len(),
                                t@.value == ValueV::Object(pv),
                                forall|j: int| 0 <= j < props@.len() ==> #[trigger] pv[j] == (props@[j].0@, props@[j].1@),
                                forall|j: int| 0 <= j < props@.len() ==> decreases_to!(node@ => #[trigger] pv[j].1),
                                tasks@.len() == k,
                                tasks_of_props(pv, k as int) == Ok::<_, Seq<DetailV>>(tasks_view(tasks@, k as int)),
                            decreases props@.len() - k,
                        {
                            assert(pv[k as int] == (props@[k as int].0@, props@[k as int].1@));
                            assert(pv[k as int].1 == props@[k as int].1@);
                            assert(decreases_to!(node@ => props@[k as int].1@));
                            match TaskDef::parse(&props[k].1) {
                                Ok(td) => {
                                    proof {
                                        lemma_tasks_view_push(tasks@, td, k as int);
                                    }
                                    tasks.push(td);
                                },
                                Err(e) => {
                                    proof {
                                        lemma_tasks_props_err(pv, k + 1, props@.len() as int);
                                    }
                                    return Err(e);
                                },
                            }
                            k = k + 1;
                        }
                    },
                    _ => {
                        return Err(DefsError::new(DefsErrorDetail::UnexpectedPropType {
                            kind: t.kind(),
                            expected: kinds(Kind::Array, Some(Kind::Object)),
                        }));
                    },
                }
            },
            None => {
                return Err(DefsError::new(DefsErrorDetail::StepMissingTasks));
            },
        }
        Ok(Step { index: 0, hosts, tasks })
    }

    /// The step's number within its procedure.
    pub fn index(&self) -> (i: usize)
        ensures
            i == self@.index,
    {
        self.index
    }

    /// The expression selecting the step's hosts, if any.
    pub fn hosts(&self) -> (h: Option<&Opath>)
        ensures
            match h {
                Some(o) => self@.hosts == Some(o@),
                None => self@.hosts is None,
            },
    {
        self.hosts.as_ref()
    }

    /// The step's tasks, in order.
    pub fn tasks(&self) -> (t: &Vec<TaskDef>)
        ensures
            t@.len() == self@.tasks.len(),
            forall|i: int| 0 <= i < t@.len() ==> #[trigger] t@[i]@ == self@.tasks[i],
    {
        proof {
            lemma_tasks_view(self.tasks@, self.tasks@.len() as int);
        }
        &self.tasks
    }
}

impl TaskDef {
    /// The task `node` defines.
    #[verifier::loop_isolation(false)]
    pub fn parse(node: &Node) -> (r: Result<TaskDef, DefsError>)
        ensures
            match r {
                Ok(t) => task_of(node@) == Ok::<_, Seq<DetailV>>(t@),
                Err(e) => task_of(node@) == Err::<TaskDefV, _>(e@),
            },
        decreases node@, 0int,
    {
        proof {
            reveal_strlit("task");
            reveal_strlit("ro");
            reveal_strlit("env");
            reveal_strlit("cases");
            reveal_strlit("output");
            reveal_strlit("id");
            reveal_strlit("label");
            reveal_strlit("-");
        }
        let scope = match ScopeDef::parse(node) {
            Ok(s) => s,
            Err(e) => return Err(e),
        };
        match &node.value {
            Value::Object(_) => {},
            _ => {
                return Err(DefsError::new(DefsErrorDetail::UnexpectedPropType { kind: node.kind(), expected: kinds(Kind::Object, None) }));
            },
        }
        let kind = match node.get_child_key("task") {
            Some(t) => {
                let s = t.as_string();
                match TaskKind::from_str(s.as_str()) {
                    Ok(k) => k,
                    Err(d) => return Err(DefsError::new(d)),
                }
            },
            None => return Err(DefsError::new(DefsErrorDetail::TaskMissingTask)),
        };
        let read_only = match node.get_child_key("ro") {
            Some(r) => r.as_boolean(),
            None => false,
        };
        let env = if kind == TaskKind::Command || kind == TaskKind::Script {
            match node.get_child_key("env") {
                Some(e) => match TaskEnv::parse(e) {
                    Ok(v) => Some(v),
                    Err(x) => return Err(DefsError::with_cause(DefsErrorDetail::EnvParse, x)),
                },
                None => None,
            }
        } else {
            None
        };
        let switch = if kind == TaskKind::Switch {
            match node.get_child_key("cases") {
                Some(c) => {
                    proof {
                        lemma_child_decreases(node@, "cases"@);
                    }
                    match Switch::parse(c) {
                        Ok(sw) => Some(sw),
                        Err(x) => return Err(DefsError::with_cause(DefsErrorDetail::SwitchParse, x)),
                    }
                },
                None => return Err(DefsError::new(DefsErrorDetail::TaskSwitchMissingCases)),
            }
        } else {
            None
        };
        let output = match node.get_child_key("output") {
            Some(o) => match TaskOutput::parse(o) {
                Ok(v) => Some(v),
                Err(x) => return Err(DefsError::with_cause(DefsErrorDetail::OutputParse, x)),
            },
            None => None,
        };
        let default_id = {
            let mut d = match node.get_child_key("task") {
                Some(t) => t.as_string(),
                None => String::new(),
            };
            push_str(&mut d, "-");
            push_str(&mut d, node.key.as_str());
            d
        };
        let default_id2 = {
            let mut d = match node.get_child_key("task") {
                Some(t) => t.as_string(),
                None => String::new(),
            };
            push_str(&mut d, "-");
            push_str(&mut d, node.key.as_str());
            d
        };
        let id = prop_or_text(node, "id", default_id);
        let label = prop_or_text(node, "label", prop_or_text(node, "id", default_id2));
        let t = TaskDef { scope_def: scope, kind, read_only, switch, output, env, id, label };
        Ok(t)
    }

    /// The task's name.
    pub fn id(&self) -> (s: &str)
        ensures
            s@ == self@.id,
    {
        self.id.as_str()
    }

    /// The task's label.
    pub fn label(&self) -> (s: &str)
        ensures
            s@ == self@.label,
    {
        self.label.as_str()
    }

    /// The task's kind.
    pub fn kind(&self) -> (k: TaskKind)
        ensures
            k == self@.kind,
    {
        self.kind
    }

    /// Whether the task only reads.
    pub fn read_only(&self) -> (b: bool)
        ensures
            b == self@.read_only,
    {
        self.read_only
    }

    /// The task's cases, for a switch.
    pub fn switch(&self) -> (s: Option<&Switch>)
        ensures
            match s {
                Some(sw) => self@.switch == Some(sw@),
                None => self@.switch is None,
            },
    {
        self.switch.as_ref()
    }

    /// What is done with the task's output.
    pub fn output(&self) -> (o: Option<&TaskOutput>)
        ensures
            match o {
                Some(out) => self@.output == Some(out@),
                None => self@.output is None,
            },
    {
        self.output.as_ref()
    }

    /// The task's environment.
    pub fn env(&self) -> (e: Option<&TaskEnv>)
        ensures
            match e {
                Some(env) => self@.env == Some(env@),
                None => self@.env is None,
            },
    {
        self.env.as_ref()
    }

    /// The task's variable definitions.
    pub fn scope_def(&self) -> (d: &ScopeDef)
        ensures
            d@ == self@.scope,
    {
        &self.scope_def
    }
}

impl Switch {
    /// The cases `node` defines: it must be an array.
    #[verifier::loop_isolation(false)]
    pub fn parse(node: &Node) -> (r: Result<Switch, DefsError>)
        ensures
            match r {
                Ok(sw) => switch_of(node@) == Ok::<_, Seq<DetailV>>(sw@),
                Err(e) => switch_of(node@) == Err::<Seq<CaseV>, _>(e@),
            },
        decreases node@, 0int,
    {
        let mut cases: Vec<Case> = Vec::new();
        match &node.value {
            Value::Array(items) => {
                proof {
                    lemma_nodes_view(items@, items@.len() as int);
                    lemma_items_decrease(node@);
                }
                let ghost iv = nodes_view(items@, items@.len() as int);
                let mut k: usize = 0;
                while k < items.len()
                    invariant
                        k <= items@.len(),
                        iv.len() == items@.len(),
                        node@.value == ValueV::Array(iv),
                        forall|j: int| 0 <= j < items@.len() ==> #[trigger] iv[j] == items@[j]@,
                        forall|j: int| 0 <= j < items@.len() ==> decreases_to!(node@ => #[trigger] iv[j]),
                        cases@.len() == k,
                        cases_of_items(iv, k as int) == Ok::<_, Seq<DetailV>>(cases_view(cases@, k as int)),
                    decreases items@.len() - k,
                {
                    assert(iv[k as int] == items@[k as int]@);
                    assert(decreases_to!(node@ => items@[k as int]@));
                    match Case::parse(&items[k]) {
                        Ok(c) => {
                            proof {
                                lemma_cases_view_push(cases@, c, k as int);
                            }
                            cases.push(c);
                        },
                        Err(e) => {
                            proof {
                                lemma_cases_items_err(iv, k + 1, items@.len() as int);
                            }
                            return Err(e);
                        },
                    }
                    k = k + 1;
                }
            },
            _ => {
                return Err(DefsError::new(DefsErrorDetail::TaskSwitchNonArray { kind: node.kind() }));
            },
        }
        Ok(Switch { cases })
    }

    /// The cases, in order.
    pub fn cases(&self) -> (c: &Vec<Case>)
        ensures
            c@.len() == self@.len(),
            forall|i: int| 0 <= i < c@.len() ==> #[trigger] c@[i]@ == self@[i],
    {
        proof {
            lemma_cases_view(self.cases@, self.cases@.len() as int);
        }
        &self.cases
    }
}

impl Case {
    /// The case `node` defines: its `when` expression, and the procedure
    /// the same node defines.
    pub fn parse(node: &Node) -> (r: Result<Case, DefsError>)
        ensures
            match r {
                Ok(c) => case_of(node@) == Ok::<_, Seq<DetailV>>(c@),
                Err(e) => case_of(node@) == Err::<CaseV, _>(e@),
            },
        decreases node@, 3int,
    {
        proof {
            reveal_strlit("when");
        }
        match &node.value {
            Value::Object(_) => {},
            _ => {
                return Err(DefsError::new(DefsErrorDetail::TaskCaseNonObject { kind: node.kind() }));
            },
        }
        let when = match node.get_child_key("when") {
            Some(w) => match ValueDef::parse(w) {
                ValueDef::Resolvable(e) => e,
                ValueDef::Static(_) => return Err(DefsError::new(DefsErrorDetail::TaskCaseStaticWhen)),
            },
            None => return Err(DefsError::new(DefsErrorDetail::TaskCaseMissingWhen)),
        };
        let proc = match ProcDef::parse(node) {
            Ok(p) => p,
            Err(e) => return Err(e),
        };
        Ok(Case { when, proc })
    }

    /// When the case applies.
    pub fn when(&self) -> (w: &Opath)
        ensures
            w@ == self@.when,
    {
        &self.when
    }

    /// The procedure the case runs.
    pub fn proc(&self) -> (p: &ProcDef)
        ensures
            p@ == self@.proc,
    {
        &self.proc
    }
}

/// Commands and scripts carry an environment, other tasks none: a parsed
/// command or script task whose node has an `env` property has that
/// property's environment, and every other parsed task has no environment.
pub proof fn law_task_env(n: NodeV)
    ensures
        (task_of(n) matches Ok(t) && (t.kind == TaskKind::Command || t.kind == TaskKind::Script)
            && child_of(n, "env"@) is Some) ==> (task_env_of(child_of(n, "env"@)->0) is Ok
            && task_of(n)->Ok_0.env == Some(task_env_of(child_of(n, "env"@)->0)->Ok_0)),
        (task_of(n) matches Ok(t) && (t.kind == TaskKind::Command || t.kind == TaskKind::Script)
            && child_of(n, "env"@) is None) ==> task_of(n)->Ok_0.env is None,
        (task_of(n) matches Ok(t) && !(t.kind == TaskKind::Command || t.kind == TaskKind::Script))
            ==> task_of(n)->Ok_0.env is None,
{
}

/// Only a switch has cases: a parsed switch task has those of its `cases`
/// property, and every other parsed task has none.
pub proof fn law_task_switch(n: NodeV)
    ensures
        (task_of(n) matches Ok(t) && t.kind == TaskKind::Switch) ==> (child_of(n, "cases"@) is Some
            && switch_of(child_of(n, "cases"@)->0) is Ok
            && task_of(n)->Ok_0.switch == Some(switch_of(child_of(n, "cases"@)->0)->Ok_0)),
        (task_of(n) matches Ok(t) && t.kind != TaskKind::Switch) ==> task_of(n)->Ok_0.switch is None,
{
}

/// The steps made of the elements `items[0..k]` are numbered in order from 0.
proof fn lemma_steps_of_items_numbered(items: Seq<NodeV>, k: int)
    requires
        0 <= k <= items.len(),
    ensures
        steps_of_items(items, k) matches Ok(st) ==> st.len() == k && forall|i: int| 0 <= i < st.len() ==> #[trigger] st[i].index == i,
    decreases k,
{
    if k > 0 {
        lemma_steps_of_items_numbered(items, k - 1);
    }
}

/// The steps made of the properties `props[0..k]` are numbered in order from 0.
proof fn lemma_steps_of_props_numbered(props: Seq<(Seq<char>, NodeV)>, k: int)
    requires
        0 <= k <= props.len(),
    ensures
        steps_of_props(props, k) matches Ok(st) ==> st.len() == k && forall|i: int| 0 <= i < st.len() ==> #[trigger] st[i].index == i,
    decreases k,
{
    if k > 0 {
        lemma_steps_of_props_numbered(props, k - 1);
    }
}

/// What a parsed procedure keeps of its node: a node with a `when` property
/// defines an exec procedure; only an update procedure watches anything, and
/// its model watches are the keys of its `watch` object, in order, each with
/// the kinds its value names; its steps are numbered in order from 0.
pub proof fn law_proc_shape(n: NodeV)
    ensures
        proc_of(n) matches Ok(p) ==> (child_of(n, "when"@) is Some ==> p.kind == ProcKind::Exec),
        proc_of(n) matches Ok(p) ==> (p.kind != ProcKind::Update ==> p.model_watches.len() == 0 && p.file_watches.len() == 0),
        proc_of(n) matches Ok(p) ==> (p.kind == ProcKind::Update && child_of(n, "watch"@) is Some
            && child_of(n, "watch"@)->0.value is Object ==> ({
                let props = child_of(n, "watch"@)->0.value->Object_0;
                &&& p.model_watches.len() == props.len()
                &&& forall|i: int| 0 <= i < props.len() ==> #[trigger] p.model_watches[i] == (props[i].0, mask_of(text_of(props[i].1)))
            })),
        proc_of(n) matches Ok(p) ==> forall|i: int| 0 <= i < p.run.len() ==> #[trigger] p.run[i].index == i,
{
    if let Some(r) = child_of(n, "run"@) {
        match r.value {
            ValueV::Array(items) => lemma_steps_of_items_numbered(items, items.len() as int),
            ValueV::Object(props) => lemma_steps_of_props_numbered(props, props.len() as int),
            _ => {},
        }
    }
}

} // verus!
