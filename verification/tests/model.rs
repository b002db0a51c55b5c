use opereon::model::defs::Opath;
use opereon::model::manifest::{Defines, Manifest, ManifestInfo};
use opereon::model::node::{first_true_prop_text, prop_text_of, Kind, Node, Value};

fn s(text: &str) -> Node {
    Node::new(Value::String(text.to_string()))
}

fn obj(props: Vec<(&str, Node)>) -> Node {
    Node::new(Value::Object(props.into_iter().map(|(k, v)| (k.to_string(), v)).collect()))
}

fn props_text(n: &Node) -> Vec<(String, String)> {
    match &n.value {
        Value::Object(props) => props.iter().map(|(k, v)| (k.clone(), v.as_string())).collect(),
        _ => panic!("object expected"),
    }
}

#[test]
fn default_defines() {
    let d = Defines::new();
    assert!(!d.is_user_defined());
    assert_eq!(d.users().expr, "$.conf.users.*");
    assert_eq!(d.hosts().expr, "$.conf.hosts.*");
    assert_eq!(d.procs().expr, "$.(proc, probe).**[@.proc != null]");
    assert!(d.custom().is_empty());
    assert_eq!(
        props_text(&d.to_node()),
        vec![
            ("users".to_string(), "$.conf.users.*".to_string()),
            ("hosts".to_string(), "$.conf.hosts.*".to_string()),
            ("procs".to_string(), "$.(proc, probe).**[@.proc != null]".to_string()),
        ]
    );
}

#[test]
fn custom_defines_follow_the_standard_ones() {
    let d = Defines::with_values(
        Opath::new("$.conf.users"),
        Opath::new("$.conf.hosts"),
        Opath::new("$.proc.**[@.proc != null]"),
        vec![("cust1".to_string(), Opath::new("$.cust1")), ("cust2".to_string(), Opath::new("$.cust2"))],
    );
    assert!(d.is_user_defined());
    assert_eq!(d.custom().len(), 2);
    assert_eq!(
        props_text(&d.to_node()),
        vec![
            ("users".to_string(), "$.conf.users".to_string()),
            ("hosts".to_string(), "$.conf.hosts".to_string()),
            ("procs".to_string(), "$.proc.**[@.proc != null]".to_string()),
            ("cust1".to_string(), "$.cust1".to_string()),
            ("cust2".to_string(), "$.cust2".to_string()),
        ]
    );
    // a custom entry named like a standard one replaces it and moves to the end
    let e = Defines::with_values(
        Opath::new("u"),
        Opath::new("h"),
        Opath::new("p"),
        vec![("users".to_string(), Opath::new("x"))],
    );
    let keys: Vec<String> = props_text(&e.to_node()).into_iter().map(|(k, _)| k).collect();
    assert_eq!(keys, vec!["hosts", "procs", "users"]);
}

#[test]
fn manifest_parts() {
    let m = Manifest::new();
    assert!(m.info().authors().is_empty());
    assert_eq!(m.info().description(), "");
    assert!(!m.defines().is_user_defined());
    let info = ManifestInfo::with_values(vec!["a".to_string()], "model".to_string());
    let m = Manifest::with_values(info, Defines::new());
    assert_eq!(m.info().authors(), &vec!["a".to_string()]);
    assert_eq!(m.info().description(), "model");
    assert_eq!(ManifestInfo::new().description(), "");
}

#[test]
fn node_texts_and_truth() {
    assert_eq!(Node::new(Value::Null).as_string(), "null");
    assert_eq!(Node::new(Value::Boolean(true)).as_string(), "true");
    assert_eq!(Node::new(Value::Integer(-42)).as_string(), "-42");
    assert_eq!(Node::new(Value::Float { text: "1.5".to_string(), normal: true }).as_string(), "1.5");
    assert_eq!(Node::new(Value::Binary(vec![1])).as_string(), "[binary]");
    assert_eq!(Node::new(Value::Array(vec![s("a"), Node::new(Value::Integer(2))])).as_string(), "a,2");
    assert_eq!(obj(vec![]).as_string(), "[object]");

    assert!(!Node::new(Value::Null).as_boolean());
    assert!(!Node::new(Value::Integer(0)).as_boolean());
    assert!(Node::new(Value::Integer(3)).as_boolean());
    assert!(!s("").as_boolean());
    assert!(s("x").as_boolean());
    assert!(!Node::new(Value::Float { text: "0".to_string(), normal: false }).as_boolean());
    assert!(Node::new(Value::Array(vec![])).as_boolean());

    assert_eq!(Node::new(Value::Binary(vec![])).kind(), Kind::Binary);
    assert_eq!(Kind::Object.as_str(), "object");
    assert_eq!(Kind::Float.as_str(), "float");
}

#[test]
fn properties_by_key() {
    let n = obj(vec![("a", s("1")), ("b", s("")), ("a", s("2"))]);
    assert_eq!(n.get_child_key("a").unwrap().as_string(), "1");
    assert!(n.get_child_key("c").is_none());
    assert!(s("x").get_child_key("a").is_none());
    assert_eq!(prop_text_of(&n, "a"), "1");
    assert_eq!(prop_text_of(&n, "c"), "");
    // "b" is present but empty, so the text of "a" is taken
    assert_eq!(first_true_prop_text(&n, "b", "a"), "1");
    assert_eq!(first_true_prop_text(&n, "a", "b"), "1");
    assert_eq!(first_true_prop_text(&n, "x", "y"), "");
}

#[test]
fn deep_copy_keeps_everything() {
    let mut n = obj(vec![("k", Node::new(Value::Array(vec![s("v")])))]);
    n.key = "root".to_string();
    n.file_path_abs = "/f.yaml".to_string();
    n.dir_abs = "/".to_string();
    let c = n.deep_copy();
    assert_eq!(c.key, "root");
    assert_eq!(c.file_path_abs, "/f.yaml");
    assert_eq!(c.dir_abs, "/");
    assert_eq!(c.get_child_key("k").unwrap().as_string(), "v");
}

#[test]
fn custom_define_set_twice_keeps_the_last_at_the_back() {
    let mut d = Defines::with_values(Opath::new("u"), Opath::new("h"), Opath::new("p"), vec![]);
    d.insert_custom("a".to_string(), Opath::new("$.a"));
    d.insert_custom("b".to_string(), Opath::new("$.b"));
    d.insert_custom("a".to_string(), Opath::new("$.a2"));
    let names: Vec<(String, String)> = d.custom().iter().map(|(k, v)| (k.clone(), v.expr.clone())).collect();
    assert_eq!(names, vec![("b".to_string(), "$.b".to_string()), ("a".to_string(), "$.a2".to_string())]);
}
