use opereon::model::config::{path_sorts_before, Config, ConfigResolver, Exclude, FileType, Include};
use opereon::model::defs::Opath;

fn include_paths(c: &Config) -> Vec<String> {
    c.includes().iter().map(|i| i.path().to_string()).collect()
}

#[test]
fn standard_config_reads_known_formats() {
    let c = Config::standard();
    assert!(c.check_globs());
    assert_eq!(c.excludes().len(), 1);
    assert_eq!(c.excludes()[0].path(), "**/.*/**");
    assert_eq!(
        include_paths(&c),
        vec!["**/*", "**/_.{yaml,yml,toml,json}", "**/*.{yaml,yml,toml,json}", "**/*"]
    );
    assert!(c.overrides().is_empty());

    let dir = c.find_include("conf", FileType::Dir).unwrap();
    assert_eq!(dir.file_type(), Some(FileType::Dir));
    assert_eq!(dir.item().expr, "map()");

    let underscore = c.find_include("conf/_.yaml", FileType::File).unwrap();
    assert_eq!(underscore.path(), "**/_.{yaml,yml,toml,json}");

    let yaml = c.find_include("conf/hosts.yml", FileType::File).unwrap();
    assert_eq!(yaml.path(), "**/*.{yaml,yml,toml,json}");
    assert_eq!(yaml.item().expr, "loadFile(@file_path, @file_ext)");

    let text = c.find_include("conf/readme.txt", FileType::File).unwrap();
    assert_eq!(text.item().expr, "loadFile(@file_path, 'text')");

    assert!(c.find_include(".git/config", FileType::File).is_none());
    assert!(c.find_include("conf/link", FileType::Link).is_none());
}

#[test]
fn find_include_checked_refuses_bad_globs() {
    let std = Config::standard();
    assert!(std.find_include_checked("a.yaml", FileType::File).unwrap().is_some());

    let bad = Config::from_parts(None, None, None, vec![Exclude::new("a/[", None)], vec![], vec![]);
    assert!(!bad.check_globs());
    assert!(bad.find_include_checked("a.yaml", FileType::File).is_none());

    let empty = Config::empty();
    assert!(empty.check_globs());
    assert!(empty.find_include_checked("x", FileType::File).unwrap().is_none());
}

#[test]
fn overrides_replace_same_key_in_place_of_duplicating() {
    let mut c = Config::empty();
    c.set_override(Opath::new("$.a"), Opath::new("1"));
    c.set_override(Opath::new("$.b"), Opath::new("2"));
    c.set_override(Opath::new("$.a"), Opath::new("3"));
    let o: Vec<(String, String)> =
        c.overrides().iter().map(|(k, v)| (k.expr.clone(), v.expr.clone())).collect();
    assert_eq!(
        o,
        vec![("$.b".to_string(), "2".to_string()), ("$.a".to_string(), "3".to_string())]
    );
    let d = c.duplicate();
    assert_eq!(d.overrides().len(), 2);
}

#[test]
fn base_paths_prefix_globs() {
    let i = Include::new("*.yaml", Some(FileType::File), "a", "b");
    let j = i.with_base_path("conf");
    assert_eq!(j.path(), "conf/*.yaml");
    assert_eq!(j.item().expr, "a");
    assert_eq!(j.mapping().expr, "b");
    assert!(j.matches_file_type(FileType::File));
    assert!(!j.matches_file_type(FileType::Dir));
    let e = Exclude::new("*.bak", None).with_base_path("conf/");
    assert_eq!(e.path(), "conf/*.bak");
    assert!(e.matches_file_type(FileType::Link));
}

#[test]
fn apply_keeps_or_drops_inherited_rules() {
    // an empty configuration keeps everything from above and adds nothing
    let mut c = Config::standard();
    c.apply("sub", &Config::empty());
    assert_eq!(include_paths(&c), include_paths(&Config::standard()));

    // one that says so drops what was inherited
    let dropping = Config::from_parts(
        Some(false),
        Some(false),
        Some(false),
        vec![Exclude::new("*.bak", None)],
        vec![Include::new("*.yaml", Some(FileType::File), "i", "m")],
        vec![],
    );
    c.set_override(Opath::new("$.a"), Opath::new("1"));
    c.apply("sub", &dropping);
    assert_eq!(include_paths(&c), vec!["sub/*.yaml"]);
    assert_eq!(c.excludes().len(), 1);
    assert_eq!(c.excludes()[0].path(), "sub/*.bak");
    assert!(c.overrides().is_empty());

    // the standard configuration applied below adds its rules under the directory
    c.apply("sub", &Config::standard());
    assert_eq!(include_paths(&c)[1], "sub/**/*");
    assert_eq!(c.excludes()[1].path(), "sub/**/.*/**");
}

#[test]
fn from_parts_keeps_the_last_value_of_a_key() {
    let c = Config::from_parts(
        Some(true),
        None,
        Some(false),
        vec![],
        vec![],
        vec![
            (Opath::new("$.a"), Opath::new("1")),
            (Opath::new("$.b"), Opath::new("2")),
            (Opath::new("$.a"), Opath::new("3")),
        ],
    );
    let o: Vec<(String, String)> =
        c.overrides().iter().map(|(k, v)| (k.expr.clone(), v.expr.clone())).collect();
    assert_eq!(
        o,
        vec![("$.b".to_string(), "2".to_string()), ("$.a".to_string(), "3".to_string())]
    );
}

#[test]
fn paths_sort_with_separator_first() {
    assert!(path_sorts_before("a", "a/b"));
    assert!(path_sorts_before("a/b", "a-b"));
    assert!(path_sorts_before("", "a"));
    assert!(!path_sorts_before("b", "a"));
    assert!(!path_sorts_before("a", "a"));
}

#[test]
fn resolver_sorts_and_resolves_by_directory() {
    let mut r = ConfigResolver::new("/m");
    r.add_file("/m/b", Config::standard());
    r.add_file("/m/a", Config::from_parts(None, Some(false), None, vec![], vec![], vec![]));
    r.add_file("/m/a/x", Config::standard());
    let dirs: Vec<String> = r.iter().iter().map(|(p, _)| p.clone()).collect();
    assert_eq!(dirs, vec!["a", "a/x", "b"]);
    assert!(!r.try_add_file("/elsewhere/c", Config::empty()));
    // no configuration for the model directory yet
    assert!(r.try_resolve("/m/a").is_none());

    r.resolve_all();
    let dirs: Vec<String> = r.iter().iter().map(|(p, _)| p.clone()).collect();
    assert_eq!(dirs, vec!["", "a", "a/x", "b"]);

    // the directory "a" dropped everything; "a/x" starts again from the standard rules
    assert!(r.resolve("/m/a").includes().is_empty());
    assert!(r.resolve("/m/a/y").includes().is_empty());
    assert_eq!(include_paths(r.resolve("/m/a/x/z"))[0], "a/x/**/*");
    assert_eq!(include_paths(r.resolve("/m/b"))[0], "**/*");
    assert_eq!(include_paths(r.resolve("/m/c")), include_paths(&Config::standard()));
    assert!(r.try_resolve("/other").is_none());
}

#[test]
fn configurations_compare_by_content() {
    let a = Config::standard();
    assert!(a.same(&Config::standard()));
    assert!(a.same(&a.duplicate()));
    assert!(!a.same(&Config::empty()));
    let mut b = a.duplicate();
    b.set_override(Opath::new("$.x"), Opath::new("1"));
    assert!(!a.same(&b));
    let c = Config::from_parts(
        Some(true),
        Some(true),
        Some(true),
        vec![Exclude::new("**/.*/**", None)],
        a.includes().iter().map(|i| Include::new(i.path(), i.file_type(), &i.item().expr, &i.mapping().expr)).collect(),
        vec![],
    );
    assert!(a.same(&c));
    assert_eq!(c.inherit_excludes(), Some(true));
    assert_eq!(Config::empty().inherit_overrides(), None);
}

#[test]
fn resolver_orders_directories_like_paths() {
    let mut r = ConfigResolver::new("/tmp/model");
    r.add_file("/tmp/model/proc/hosts_file", Config::standard());
    r.add_file("/tmp/model/conf/users", Config::standard());
    r.add_file("/tmp/model/conf/hosts", Config::standard());
    r.resolve_all();
    let dirs: Vec<String> = r.iter().iter().map(|(p, _)| p.clone()).collect();
    assert_eq!(dirs, vec!["", "conf/hosts", "conf/users", "proc/hosts_file"]);
}

#[test]
fn model_entries_skip_work_files_and_pick_includes() {
    let mut r = ConfigResolver::new("/m");
    r.add_file("/m/sub", Config::standard());
    r.resolve_all();
    assert!(r.entry_include("/m/.op/state", FileType::File).is_none());
    assert!(r.entry_include("/m/.op", FileType::Dir).is_none());
    assert!(r.entry_include("/m/op.toml", FileType::File).is_none());
    assert!(r.entry_include("/m/sub/.operc", FileType::File).is_none());
    assert_eq!(r.entry_include("/m/hosts.yaml", FileType::File).unwrap().path(), "**/*.{yaml,yml,toml,json}");
    assert_eq!(r.entry_include("/m/sub/op.toml.bak", FileType::File).unwrap().path(), "**/*");
    assert_eq!(r.entry_include("/m/conf", FileType::Dir).unwrap().file_type(), Some(FileType::Dir));
    assert!(r.check_all_globs());
    assert!(r.try_entry_include("/elsewhere/x", FileType::File).is_none());
    assert!(r.try_entry_include("/m/op.toml", FileType::File).unwrap().is_none());
    assert!(r.try_entry_include("/m/a.txt", FileType::File).unwrap().is_some());
    let mut bad = ConfigResolver::new("/m");
    bad.add_file("/m", Config::from_parts(None, None, None, vec![Exclude::new("a/[", None)], vec![], vec![]));
    bad.resolve_all();
    assert!(bad.try_entry_include("/m/a.txt", FileType::File).is_none());
}
