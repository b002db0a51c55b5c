use opereon::model::defs::procdef::{
    Case, FileFormat, OutputMode, ProcDef, ProcKind, RunDef, Step, Switch, TaskDef, TaskEnv, TaskKind, TaskOutput,
};
use opereon::model::defs::watch::{ChangeKind, FileWatch, ModelWatch};
use opereon::model::update::{Change, ModelUpdate, WatchPaths};
use opereon::model::defs::{DefsError, DefsErrorDetail, HostDef, ScopeDef, Scoped, UserDef, ValueDef};
use opereon::model::node::{Kind, Node, Value};
use yaml_rust::{Yaml, YamlLoader};

fn key_text(k: &Yaml) -> String {
    match k {
        Yaml::String(s) => s.clone(),
        Yaml::Integer(i) => i.to_string(),
        Yaml::Boolean(b) => b.to_string(),
        Yaml::Real(r) => r.clone(),
        _ => String::new(),
    }
}

fn to_node(y: &Yaml, key: &str) -> Node {
    let value = match y {
        Yaml::Null | Yaml::BadValue | Yaml::Alias(_) => Value::Null,
        Yaml::Boolean(b) => Value::Boolean(*b),
        Yaml::Integer(i) => Value::Integer(*i),
        Yaml::Real(r) => {
            let f: f64 = r.parse().unwrap();
            Value::Float { text: f.to_string(), normal: f.is_normal() }
        }
        Yaml::String(s) => Value::String(s.clone()),
        Yaml::Array(a) => Value::Array(a.iter().enumerate().map(|(i, e)| to_node(e, &i.to_string())).collect()),
        Yaml::Hash(h) => Value::Object(
            h.iter()
                .map(|(k, v)| {
                    let name = key_text(k);
                    let child = to_node(v, &name);
                    (name, child)
                })
                .collect(),
        ),
    };
    Node { value, key: key.to_string(), file_path_abs: String::new(), dir_abs: String::new() }
}

/// The node a YAML (or JSON) text describes; an empty text is an empty object.
fn node(text: &str) -> Node {
    let docs = YamlLoader::load_from_str(text).unwrap();
    match docs.first() {
        Some(d) => to_node(d, ""),
        None => Node::new(Value::Object(Vec::new())),
    }
}

fn same(a: &Node, b: &Node) -> bool {
    let values = match (&a.value, &b.value) {
        (Value::Null, Value::Null) => true,
        (Value::Boolean(x), Value::Boolean(y)) => x == y,
        (Value::Integer(x), Value::Integer(y)) => x == y,
        (Value::Float { text: x, normal: nx }, Value::Float { text: y, normal: ny }) => x == y && nx == ny,
        (Value::String(x), Value::String(y)) => x == y,
        (Value::Binary(x), Value::Binary(y)) => x == y,
        (Value::Array(x), Value::Array(y)) => x.len() == y.len() && x.iter().zip(y.iter()).all(|(p, q)| same(p, q)),
        (Value::Object(x), Value::Object(y)) => {
            x.len() == y.len() && x.iter().zip(y.iter()).all(|(p, q)| p.0 == q.0 && same(&p.1, &q.1))
        }
        _ => false,
    };
    values && a.key == b.key && a.file_path_abs == b.file_path_abs && a.dir_abs == b.dir_abs
}

fn detail<T>(r: Result<T, DefsError>) -> DefsErrorDetail {
    match r {
        Ok(_) => panic!("error expected"),
        Err(e) => e.detail,
    }
}

#[test]
fn new_host_empty() {
    let host = HostDef::new(node("{}"), node("{}")).unwrap();
    assert!(host.hostname().is_empty())
}

#[test]
fn new_host_hostname() {
    let json = r#"{"hostname": "localhost"}"#;
    let host = HostDef::new(node(json), node(json)).unwrap();
    assert_eq!("localhost", host.hostname())
}

#[test]
fn new_host_fqdn() {
    let json = r#"{"fqdn": "localhost"}"#;
    let host = HostDef::new(node(json), node(json)).unwrap();
    assert_eq!("localhost", host.hostname())
}

#[test]
fn new_host_prefers_fqdn() {
    let json = r#"{"hostname": "short", "fqdn": "long.example.com"}"#;
    let host = HostDef::new(node(json), node(json)).unwrap();
    assert_eq!("long.example.com", host.hostname())
}

#[test]
fn parse() {
    let text = r#"{
        "hostname": "localhost",
        "ssh_dest": {}
    }"#;
    let n = node(text);
    let host = HostDef::parse(&node("{}"), &n).unwrap();
    assert_eq!("localhost", host.hostname())
}

#[test]
fn parse_missing_hostname() {
    let n = node(r#"{ "ssh_dest": {} }"#);
    match detail(HostDef::parse(&node("{}"), &n)) {
        DefsErrorDetail::HostMissingHostname => {}
        d => panic!("unexpected {:?}", d),
    }
}

#[test]
fn parse_missing_ssh_dest() {
    let n = node(r#"{ "hostname": "localhost" }"#);
    match detail(HostDef::parse(&node("{}"), &n)) {
        DefsErrorDetail::HostMissingSshDest => {}
        d => panic!("unexpected {:?}", d),
    }
}

#[test]
fn parse_non_obj_host() {
    let n = node(r#""some string""#);
    match detail(HostDef::parse(&node("{}"), &n)) {
        DefsErrorDetail::HostNonObject { kind } => assert_eq!(Kind::String, kind),
        d => panic!("unexpected {:?}", d),
    }
}

#[test]
fn new_empty() {
    let ud = UserDef::new(node(""), node("")).unwrap();
    assert_eq!("", ud.username())
}

#[test]
fn new_with_username() {
    let text = "username: root";
    let ud = UserDef::new(node(text), node(text)).unwrap();
    assert_eq!("root", ud.username())
}

#[test]
fn parse_with_username() {
    let ud = UserDef::parse(&node(""), &node("username: root")).unwrap();
    assert_eq!("root", ud.username())
}

#[test]
fn parse_without_username() {
    match detail(UserDef::parse(&node(""), &node(""))) {
        DefsErrorDetail::UserMissingUsername => {}
        d => panic!("unexpected {:?}", d),
    }
}

#[test]
fn parse_non_object() {
    match detail(UserDef::parse(&node(""), &node(r#" "string node""#))) {
        DefsErrorDetail::UserNonObject { kind } => assert_eq!("string", kind.as_str()),
        d => panic!("unexpected {:?}", d),
    }
}

#[test]
fn proc_proc_kind_from_str() {
    assert_eq!(ProcKind::Exec, ProcKind::from_str("exec").unwrap());
    assert_eq!(ProcKind::Check, ProcKind::from_str("check").unwrap());
    assert_eq!(ProcKind::Update, ProcKind::from_str("update").unwrap());
    assert_eq!(ProcKind::Probe, ProcKind::from_str("probe").unwrap());
    match ProcKind::from_str("kitty") {
        Err(DefsErrorDetail::UnknownProcKind { value }) => assert_eq!("kitty", value),
        r => panic!("unexpected {:?}", r),
    }
}

#[test]
fn proc_def_update() {
    let text = r#"
proc: update
id: proc-id
label: proc-label
watch:
  $.conf.hosts: +
watch_file:
  conf/hosts/**: +
run:
  step_0:
    tasks:
      - task: script
  step_1:
    tasks:
      - task: command
"#;
    let mut n = node(text);
    n.file_path_abs = "/path/to/source/file.yaml".to_string();
    n.dir_abs = "/path/to/source".to_string();
    let def = ProcDef::parse(&n).unwrap();
    assert_eq!("proc-id", def.id());
    assert_eq!("proc-label", def.label());
    assert_eq!("/path/to/source/file.yaml", def.path());
    assert_eq!("/path/to/source", def.dir());
    assert_eq!(ProcKind::Update, def.kind());
    assert_eq!(1, def.model_watches().len());
    assert_eq!(1, def.file_watches().len());
    assert_eq!(2, def.run().steps().len());
}

#[test]
fn proc_def_watch_nulls() {
    let text = r#"
proc: update
id: proc-id
label: proc-label
watch: null
watch_file: null
"#;
    let def = ProcDef::parse(&node(text)).unwrap();
    assert_eq!(0, def.model_watches().len());
    assert_eq!(0, def.file_watches().len());
}

#[test]
fn proc_def_when_exec_type() {
    let def = ProcDef::parse(&node(r#"when: "@.some.expr""#)).unwrap();
    assert_eq!(ProcKind::Exec, def.kind());
}

#[test]
fn proc_def_file_watch_parse_err() {
    let text = r#"
proc: update
watch_file:
  "[Z-A]": +
"#;
    match detail(ProcDef::parse(&node(text))) {
        DefsErrorDetail::ProcFileWatchParse { glob } => assert_eq!("[Z-A]", glob),
        d => panic!("unexpected {:?}", d),
    }
}

#[test]
fn proc_def_run_parse_err() {
    let text = r#"
proc: update
watch:
  $.conf.hosts: +
run:
  step_0:
    tasks:
      - task: script
  step_1:
    tasks_aaa:
      - task: command
"#;
    match detail(ProcDef::parse(&node(text))) {
        DefsErrorDetail::RunParse => {}
        d => panic!("unexpected {:?}", d),
    }
}

#[test]
fn proc_def_missing_proc() {
    let text = r#"
watch:
  $.conf.hosts: +
run:
  step_0:
    tasks:
      - task: script
  step_1:
    tasks_aaa:
      - task: command
"#;
    match detail(ProcDef::parse(&node(text))) {
        DefsErrorDetail::ProcMissingProc => {}
        d => panic!("unexpected {:?}", d),
    }
}

#[test]
fn proc_def_bad_proc_kind() {
    match detail(ProcDef::parse(&node("proc: lala"))) {
        DefsErrorDetail::UnknownProcKind { value } => assert_eq!("lala", value),
        d => panic!("unexpected {:?}", d),
    }
}

#[test]
fn proc_def_model_watch_non_obj() {
    let text = "proc: update\nwatch: some-string\n";
    match detail(ProcDef::parse(&node(text))) {
        DefsErrorDetail::ProcWatchNonObject { kind } => assert_eq!(Kind::String, kind),
        d => panic!("unexpected {:?}", d),
    }
}

#[test]
fn proc_def_file_watch_non_obj() {
    let text = "proc: update\nwatch_file: some-string\n";
    match detail(ProcDef::parse(&node(text))) {
        DefsErrorDetail::ProcWatchNonObject { kind } => assert_eq!(Kind::String, kind),
        d => panic!("unexpected {:?}", d),
    }
}

#[test]
fn proc_def_unexpected_type() {
    match detail(ProcDef::parse(&node(r#""some string""#))) {
        DefsErrorDetail::UnexpectedPropType { kind, expected } => {
            assert_eq!(Kind::String, kind);
            assert_eq!(vec![Kind::Object], expected);
        }
        d => panic!("unexpected {:?}", d),
    }
}

#[test]
fn proc_def_id_from_key() {
    let mut n = node("proc: exec\nlabel: \"\"\n");
    n.key = "my-proc".to_string();
    let def = ProcDef::parse(&n).unwrap();
    assert_eq!("my-proc", def.id());
    assert_eq!("my-proc", def.label());
}

#[test]
fn step_parse_array_tasks() {
    let text = r#"
hosts: "${@.conf.hosts}"
tasks:
  - task: command
    custom_prop: value
  - task: script
    custom_prop: value
"#;
    let def = Step::parse(&node(text)).unwrap();
    assert_eq!(2, def.tasks().len());
    assert!(def.hosts().is_some());
    assert_eq!("@.conf.hosts", def.hosts().unwrap().expr);
}

#[test]
fn step_parse_obj_tasks() {
    let text = r#"
tasks:
    task_1:
      task: command
      custom_prop: value
    task_2:
      task: script
      custom_prop: value
"#;
    let def = Step::parse(&node(text)).unwrap();
    assert_eq!(2, def.tasks().len());
    assert!(def.hosts().is_none());
    assert_eq!("task_1", def.tasks()[0].id().split('-').nth(1).unwrap());
}

#[test]
fn step_parse_static_hosts() {
    match detail(Step::parse(&node(r#"hosts: "static value""#))) {
        DefsErrorDetail::StepStaticHosts => {}
        d => panic!("unexpected {:?}", d),
    }
}

#[test]
fn step_array_tasks_parse_err() {
    let text = r#"
tasks:
  - task_aa: command
    custom_prop: value
  - task: script
    custom_prop: value
"#;
    match detail(Step::parse(&node(text))) {
        DefsErrorDetail::TaskMissingTask => {}
        d => panic!("unexpected {:?}", d),
    }
}

#[test]
fn step_obj_tasks_parse_err() {
    let text = r#"
hosts: "${@.conf.hosts}"
tasks:
    task_1:
      task_aa: command
      custom_prop: value
    task_2:
      task: script
      custom_prop: value
"#;
    match detail(Step::parse(&node(text))) {
        DefsErrorDetail::TaskMissingTask => {}
        d => panic!("unexpected {:?}", d),
    }
}

#[test]
fn step_invalid_tasks_type() {
    match detail(Step::parse(&node(r#"tasks: "string""#))) {
        DefsErrorDetail::UnexpectedPropType { kind, expected } => {
            assert_eq!(Kind::String, kind);
            assert_eq!(vec![Kind::Array, Kind::Object], expected);
        }
        d => panic!("unexpected {:?}", d),
    }
}

#[test]
fn step_parse_invalid_type() {
    match detail(Step::parse(&node(r#""Some string""#))) {
        DefsErrorDetail::UnexpectedPropType { kind, expected } => {
            assert_eq!(Kind::String, kind);
            assert_eq!(vec![Kind::Object], expected);
        }
        d => panic!("unexpected {:?}", d),
    }
}

#[test]
fn step_parse_missing_tasks() {
    match detail(Step::parse(&node("some_prop: aaaaa"))) {
        DefsErrorDetail::StepMissingTasks => {}
        d => panic!("unexpected {:?}", d),
    }
}

#[test]
fn run_parse_obj() {
    let text = r#"
run:
  step_1:
    tasks:
      - task: script
  step_2:
    tasks:
      - task: command
"#;
    let def = RunDef::parse(&node(text)).unwrap();
    assert_eq!(2, def.steps().len());
    assert_eq!(0, def.steps()[0].index());
    assert_eq!(1, def.steps()[1].index());
}

#[test]
fn run_parse_arr() {
    let text = r#"
run:
  - tasks:
      - task: script
  - tasks:
      - task: command
"#;
    let def = RunDef::parse(&node(text)).unwrap();
    assert_eq!(2, def.steps().len())
}

#[test]
fn run_parse_null() {
    let def = RunDef::parse(&node("null")).unwrap();
    assert_eq!(0, def.steps().len())
}

#[test]
fn run_parse_obj_step_parse_err() {
    let text = r#"
run:
  step_0:
    tasks:
      - task: script
  step_1:
    tasks_aaa:
      - task: command
"#;
    match RunDef::parse(&node(text)) {
        Err(e) => {
            match &e.detail {
                DefsErrorDetail::StepParse { step } => assert_eq!("1 (step_1)", step),
                d => panic!("unexpected {:?}", d),
            }
            assert!(e.cause.is_some());
        }
        Ok(_) => panic!("error expected"),
    }
}

#[test]
fn run_parse_array_step_parse_err() {
    let text = r#"
run:
  - tasks:
      - task: script
  - tasks_aa:
      - task: command
"#;
    match RunDef::parse(&node(text)) {
        Err(e) => {
            match &e.detail {
                DefsErrorDetail::StepParse { step } => assert_eq!("1", step),
                d => panic!("unexpected {:?}", d),
            }
            assert!(e.cause.is_some());
        }
        Ok(_) => panic!("error expected"),
    }
}

#[test]
fn run_parse_run_illegal_type() {
    match detail(RunDef::parse(&node(r#"run: "some string""#))) {
        DefsErrorDetail::UnexpectedPropType { kind, expected } => {
            assert_eq!(Kind::String, kind);
            assert_eq!(vec![Kind::Array, Kind::Object], expected);
        }
        d => panic!("unexpected {:?}", d),
    }
}

#[test]
fn task_proc_kind_from_str() {
    assert_eq!(TaskKind::Exec, TaskKind::from_str("exec").unwrap());
    assert_eq!(TaskKind::Switch, TaskKind::from_str("switch").unwrap());
    assert_eq!(TaskKind::Template, TaskKind::from_str("template").unwrap());
    assert_eq!(TaskKind::Command, TaskKind::from_str("command").unwrap());
    assert_eq!(TaskKind::Script, TaskKind::from_str("script").unwrap());
    assert_eq!(TaskKind::FileCopy, TaskKind::from_str("file-copy").unwrap());
    assert_eq!(TaskKind::FileCompare, TaskKind::from_str("file-compare").unwrap());
    match TaskKind::from_str("kitty") {
        Err(DefsErrorDetail::UnknownTaskKind { value }) => assert_eq!("kitty", value),
        r => panic!("unexpected {:?}", r),
    }
}

#[test]
fn case_parse() {
    let text = r#"
when: "${$missing_packages.length() > 0}"
run:
- tasks:
    - task: exec
"#;
    let def = Case::parse(&node(text)).unwrap();
    assert_eq!("$missing_packages.length() > 0", def.when().expr);
    assert_eq!(1, def.proc().run().steps().len());
}

#[test]
fn case_parse_static_when() {
    let text = r#"
when: "static value"
run:
- tasks:
    - task: exec
"#;
    match detail(Case::parse(&node(text))) {
        DefsErrorDetail::TaskCaseStaticWhen => {}
        d => panic!("unexpected {:?}", d),
    }
}

#[test]
fn case_parse_missing_when() {
    let text = r#"
run:
- tasks:
    - task: exec
"#;
    match detail(Case::parse(&node(text))) {
        DefsErrorDetail::TaskCaseMissingWhen => {}
        d => panic!("unexpected {:?}", d),
    }
}

#[test]
fn case_parse_non_object() {
    match detail(Case::parse(&node(r#""string node""#))) {
        DefsErrorDetail::TaskCaseNonObject { kind } => assert_eq!(Kind::String, kind),
        d => panic!("unexpected {:?}", d),
    }
}

#[test]
fn switch_parse() {
    let text = r#"
- when: "${$missing_packages.length() > 0}"
  run:
    - tasks:
        - task: exec
- when: "${$missing_packages.length() > 0}"
  run:
    - tasks:
        - task: exec
"#;
    let def = Switch::parse(&node(text)).unwrap();
    assert_eq!(2, def.cases().len())
}

#[test]
fn switch_parse_non_array() {
    match detail(Switch::parse(&node(r#"some_prop: "aaa""#))) {
        DefsErrorDetail::TaskSwitchNonArray { kind } => assert_eq!(Kind::Object, kind),
        d => panic!("unexpected {:?}", d),
    }
}

#[test]
fn task_env_parse_obj() {
    let text = r#"
variable1: "$.conf.hosts"
variable2: "@.some.path"
"#;
    match TaskEnv::parse(&node(text)).unwrap() {
        TaskEnv::Mapping(envs) => {
            assert_eq!("$.conf.hosts", envs.get("variable1").unwrap());
            assert_eq!("@.some.path", envs.get("variable2").unwrap());
        }
        TaskEnv::List(_) => panic!("Map expected"),
    }
}

#[test]
fn task_env_parse_array() {
    let text = r#"
- "$.conf.hosts"
- "@.some.path"
"#;
    match TaskEnv::parse(&node(text)).unwrap() {
        TaskEnv::Mapping(_) => panic!("List expected"),
        TaskEnv::List(envs) => {
            assert_eq!("$.conf.hosts", envs[0].expr);
            assert_eq!("@.some.path", envs[1].expr);
        }
    }
}

#[test]
fn task_env_parse_string() {
    match TaskEnv::parse(&node(r#""${@.some.path}""#)).unwrap() {
        TaskEnv::Mapping(_) => panic!("List expected"),
        TaskEnv::List(envs) => assert_eq!("@.some.path", envs[0].expr),
    }
}

#[test]
fn task_env_parse_obj_err() {
    let text = r#"
illegal_obj:
  nested: "val"
"#;
    match detail(TaskEnv::parse(&node(text))) {
        DefsErrorDetail::EnvPropParseErr { prop } => assert_eq!("illegal_obj", prop),
        d => panic!("unexpected {:?}", d),
    }
}

#[test]
fn task_env_parse_array_err() {
    let text = r#"
- illegal_obj:
  nested: "val"
"#;
    match detail(TaskEnv::parse(&node(text))) {
        DefsErrorDetail::EnvPropParseErr { prop } => assert_eq!("0", prop),
        d => panic!("unexpected {:?}", d),
    }
}

#[test]
fn task_env_parse_illegal_type() {
    match detail(TaskEnv::parse(&node("1234"))) {
        DefsErrorDetail::UnexpectedPropType { kind, expected } => {
            assert_eq!(Kind::Integer, kind);
            assert_eq!(vec![Kind::Object, Kind::Array, Kind::String], expected);
        }
        d => panic!("unexpected {:?}", d),
    }
}

#[test]
fn task_output_parse_obj() {
    let text = r#"
format: json
expr: "@.some.expr"
"#;
    let out = TaskOutput::parse(&node(text)).unwrap();
    match out.mode() {
        OutputMode::Var(_) => panic!("Expr expected"),
        OutputMode::Expr(opath) => assert_eq!("@.some.expr", opath.expr),
    }
    assert_eq!(FileFormat::Json, out.format());
}

#[test]
fn task_output_parse_string() {
    let out = TaskOutput::parse(&node(r#""yaml""#)).unwrap();
    match out.mode() {
        OutputMode::Var(var) => assert_eq!("output", var),
        OutputMode::Expr(_) => panic!("Var expected"),
    }
    assert_eq!(FileFormat::Yaml, out.format());
}

#[test]
fn task_output_parse_illegal_type() {
    match detail(TaskOutput::parse(&node("1234"))) {
        DefsErrorDetail::UnexpectedPropType { kind, expected } => {
            assert_eq!(Kind::Integer, kind);
            assert_eq!(vec![Kind::Object, Kind::String], expected);
        }
        d => panic!("unexpected {:?}", d),
    }
}

#[test]
fn task_def_command_parse() {
    let text = r#"
task: command
id: task-id
label: task-label
ro: true
env:
  var1: "Value1"
  var2: "Value2"
"#;
    let def = TaskDef::parse(&node(text)).unwrap();
    assert_eq!("task-id", def.id());
    assert_eq!("task-label", def.label());
    assert_eq!(TaskKind::Command, def.kind());
    assert!(def.read_only());
    assert!(def.switch().is_none());
    assert!(def.output().is_none());
    assert!(def.env().is_some());
}

#[test]
fn task_def_switch_parse() {
    let text = r#"
task: switch
cases:
  - when: "${@}"
    key: val1
  - when: "${$}"
    key: val2
"#;
    let def = TaskDef::parse(&node(text)).unwrap();
    assert_eq!(TaskKind::Switch, def.kind());
    assert!(def.switch().is_some());
    assert_eq!(2, def.switch().unwrap().cases().len())
}

#[test]
fn task_def_script_output() {
    let text = r#"
task: script
output:
    format: json
    expr: "@.some.expr"
"#;
    let def = TaskDef::parse(&node(text)).unwrap();
    assert_eq!(TaskKind::Script, def.kind());
    assert!(def.output().is_some());
}

#[test]
fn task_def_missing_task() {
    let text = r#"
output:
    format: json
    expr: "@.some.expr"
"#;
    match detail(TaskDef::parse(&node(text))) {
        DefsErrorDetail::TaskMissingTask => {}
        d => panic!("unexpected {:?}", d),
    }
}

#[test]
fn task_def_env_parse_err() {
    match detail(TaskDef::parse(&node("task: command\nenv: 1234\n"))) {
        DefsErrorDetail::EnvParse => {}
        d => panic!("unexpected {:?}", d),
    }
}

#[test]
fn task_def_switch_parse_err() {
    let text = r#"
task: switch
cases:
  - when: "static prop"
    key: val1
  - when: "${$}"
    key: val2
"#;
    match detail(TaskDef::parse(&node(text))) {
        DefsErrorDetail::SwitchParse => {}
        d => panic!("unexpected {:?}", d),
    }
}

#[test]
fn task_def_output_parse_err() {
    match detail(TaskDef::parse(&node("task: command\noutput: 1234\n"))) {
        DefsErrorDetail::OutputParse => {}
        d => panic!("unexpected {:?}", d),
    }
}

#[test]
fn task_def_unexpected_type() {
    match detail(TaskDef::parse(&node(r#""unexpected string""#))) {
        DefsErrorDetail::UnexpectedPropType { kind, expected } => {
            assert_eq!(Kind::String, kind);
            assert_eq!(vec![Kind::Object], expected);
        }
        d => panic!("unexpected {:?}", d),
    }
}

#[test]
fn task_def_default_id() {
    let mut n = node("task: command\n");
    n.key = "3".to_string();
    let def = TaskDef::parse(&n).unwrap();
    assert_eq!("command-3", def.id());
    assert_eq!("command-3", def.label());
}

#[test]
fn model_watch_parse() {
    let w = ModelWatch::parse("$conf.hosts", "+");
    assert_eq!("$conf.hosts", w.path().expr);
    assert!(w.mask().has_added())
}

#[test]
fn model_watch_mask_words() {
    let w = ModelWatch::parse("$conf.hosts", "removed, moved");
    assert!(!w.mask().has_added());
    assert!(w.mask().has_removed());
    assert!(!w.mask().has_updated());
    assert!(w.mask().has_moved());
    let all = ModelWatch::parse("$", "ALL");
    assert!(all.mask().has_added() && all.mask().has_removed() && all.mask().has_updated() && all.mask().has_moved());
}

#[test]
fn file_watch_parse() {
    let w = FileWatch::parse("conf/hosts/**", "+").unwrap();
    assert_eq!("conf/hosts/**", w.glob());
    assert!(w.mask().has_added());
    assert!(w.matches("conf/hosts/a.yaml"));
    assert!(!w.matches("conf/users/a.yaml"));
}

#[test]
fn file_watch_parse_err() {
    match detail(FileWatch::parse("[Z-A]", "+")) {
        DefsErrorDetail::ProcFileWatchParse { .. } => {}
        d => panic!("unexpected {:?}", d),
    }
}

#[test]
fn value_parse_static() {
    let n = node(r#"{ "some key": "some value" }"#);
    match ValueDef::parse(&n) {
        ValueDef::Static(v) => assert!(same(&v, &n)),
        _ => panic!(),
    }
}

#[test]
fn value_parse_static_string() {
    let n = node(r#""some string""#);
    match ValueDef::parse(&n) {
        ValueDef::Static(v) => assert!(same(&v, &n)),
        _ => panic!(),
    }
}

#[test]
fn value_parse_resolvable() {
    let n = node(r#""${'some expression' + 1}""#);
    match ValueDef::parse(&n) {
        ValueDef::Resolvable(o) => assert_eq!("'some expression' + 1", o.expr),
        _ => panic!(),
    }
}

#[test]
fn scope_parse() {
    let text = r#"
scope:
  object:
    val: ["aa", "bb"]
  value1: "${@^.@key}"
  value2: 2
"#;
    let scope = ScopeDef::parse(&node(text)).unwrap();
    assert!(scope.get_var_def("object").unwrap().is_static());
    assert!(!scope.get_var_def("value1").unwrap().is_static());
    assert!(scope.get_var_def("value2").unwrap().is_static());
    assert_eq!(3, scope.len());
}

#[test]
fn scope_parse_null() {
    let scope = ScopeDef::parse(&node("{}")).unwrap();
    assert_eq!(0, scope.len())
}

#[test]
fn scope_parse_non_object() {
    match detail(ScopeDef::parse(&node(r#"scope: "invalid scope type""#))) {
        DefsErrorDetail::ScopeNonObject { kind } => assert_eq!("string", kind.as_str()),
        d => panic!("unexpected {:?}", d),
    }
}

#[test]
fn scope_set_var_def_moves_to_end() {
    let mut scope = ScopeDef::new();
    scope.set_var_def("a".to_string(), ValueDef::parse(&node("1")));
    scope.set_var_def("b".to_string(), ValueDef::parse(&node("2")));
    scope.set_var_def("a".to_string(), ValueDef::parse(&node(r#""${x}""#)));
    assert_eq!(2, scope.len());
    assert!(!scope.get_var_def("a").unwrap().is_static());
    assert!(scope.get_var_def("c").is_none());
}

fn change(kind: ChangeKind, old_path: Option<&str>, new_path: Option<&str>) -> Change {
    Change { kind, old_path: old_path.map(|p| p.to_string()), new_path: new_path.map(|p| p.to_string()) }
}

#[test]
fn updater_reacts_to_watched_changes() {
    let text = r#"
proc: update
id: upd
watch:
  $.conf.hosts: +
  $.conf.users: "~"
watch_file:
  conf/hosts/**: +
  conf/**: "*"
"#;
    let def = ProcDef::parse(&node(text)).unwrap();
    let update = ModelUpdate::new(
        vec![
            change(ChangeKind::Added, None, Some("$.conf.hosts.a")),
            change(ChangeKind::Updated, None, Some("$.conf.hosts.a")),
            change(ChangeKind::Moved, Some("$.x"), Some("$.conf.users.u")),
            change(ChangeKind::Removed, Some("$.conf.hosts.a"), None),
        ],
        vec![
            change(ChangeKind::Added, None, Some("conf/hosts/a.yaml")),
            change(ChangeKind::Updated, None, Some("conf/hosts/b.yaml")),
            change(ChangeKind::Removed, Some("other/c.yaml"), None),
        ],
    );
    assert_eq!(update.model_diff().len(), 4);
    assert_eq!(update.file_diff().len(), 3);
    let watches = vec![
        WatchPaths {
            old_paths: vec![],
            new_paths: vec!["$.conf.hosts.a".to_string()],
        },
        WatchPaths {
            old_paths: vec![],
            new_paths: vec!["$.conf.users.u".to_string()],
        },
    ];
    let (model, files) = update.check_updater(&def, &watches);
    assert_eq!(model, vec![0, 2]);
    assert_eq!(files, vec![0, 1]);
}

#[test]
fn updater_counts_each_reacting_file_watch() {
    let text = r#"
proc: update
id: upd
watch_file:
  conf/**: +
  conf/hosts/*: +
"#;
    let def = ProcDef::parse(&node(text)).unwrap();
    let update = ModelUpdate::new(vec![], vec![change(ChangeKind::Added, None, Some("conf/hosts/a.yaml"))]);
    let (model, files) = update.check_updater(&def, &vec![]);
    assert!(model.is_empty());
    assert_eq!(files, vec![0, 0]);
}

#[test]
fn scope_read_after_write() {
    let mut scope = ScopeDef::new();
    scope.set_var_def("a".to_string(), ValueDef::parse(&node("1")));
    scope.set_var_def("b".to_string(), ValueDef::parse(&node("2")));
    scope.set_var_def("a".to_string(), ValueDef::parse(&node(r#""${$.x}""#)));
    assert_eq!(2, scope.len());
    assert!(!scope.get_var_def("a").unwrap().is_static());
    assert!(scope.get_var_def("b").unwrap().is_static());
    assert!(scope.get_var_def("c").is_none());
}

#[test]
fn scope_last_write_wins() {
    let mut scope = ScopeDef::new();
    for (name, text) in [("x", "1"), ("y", "\"${$.a}\""), ("x", "\"${$.b}\""), ("z", "2"), ("y", "3")] {
        scope.set_var_def(name.to_string(), ValueDef::parse(&node(text)));
    }
    assert_eq!(3, scope.len());
    assert!(!scope.get_var_def("x").unwrap().is_static());
    assert!(scope.get_var_def("y").unwrap().is_static());
    assert!(scope.get_var_def("z").unwrap().is_static());
}

#[test]
fn over_long_or_unbuildable_globs_are_refused() {
    let long = "a".repeat(0x100_0001);
    assert!(FileWatch::parse(&long, "+").is_err());
    assert!(FileWatch::parse("a/[", "+").is_err());
    assert!(FileWatch::parse(&"a".repeat(0x100_0000), "+").is_ok());
}

#[test]
fn updater_takes_kinds_from_its_own_watches() {
    let text = r#"
proc: update
id: upd
watch:
  $.conf.users: "~"
"#;
    let def = ProcDef::parse(&node(text)).unwrap();
    let update = ModelUpdate::new(
        vec![
            change(ChangeKind::Added, None, Some("$.conf.users.u")),
            change(ChangeKind::Moved, Some("$.conf.users.u"), Some("$.conf.users.v")),
        ],
        vec![],
    );
    let watches = vec![WatchPaths {
        old_paths: vec!["$.conf.users.u".to_string()],
        new_paths: vec!["$.conf.users.u".to_string(), "$.conf.users.v".to_string()],
    }];
    let (model, files) = update.check_updater(&def, &watches);
    assert_eq!(model, vec![1]);
    assert!(files.is_empty());
}

#[test]
fn clear_scope_reaches_every_nested_scope() {
    let root = node("a: 1");
    let mut grandchild = Scoped::new(&root, &root, ScopeDef::new());
    grandchild.mark_resolved();
    let mut child = Scoped::new(&root, &root, ScopeDef::new());
    child.add_child(grandchild);
    assert!(!child.children()[0].is_resolved());
    child.child_mut(0).mark_resolved();
    child.mark_resolved();
    let mut parent = Scoped::new(&root, &root, ScopeDef::new());
    parent.add_child(child);
    parent.child_mut(0).mark_resolved();
    parent.mark_resolved();
    assert!(parent.children()[0].children()[0].is_resolved());
    parent.clear_scope();
    assert!(!parent.is_resolved());
    assert_eq!(parent.children().len(), 1);
    assert!(!parent.children()[0].is_resolved());
    assert_eq!(parent.children()[0].children().len(), 1);
    assert!(!parent.children()[0].children()[0].is_resolved());
}
