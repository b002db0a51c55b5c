use std::path::PathBuf;

use opereon::model::paths::{
    manifest_candidate, manifest_step, resolve_model_path, LoadFileFunc, ManifestProbe, ManifestStep,
};
use opereon::path::path_is_absolute;

#[test]
fn relative_to_current() {
    let p = resolve_model_path("./dir/some_file.yaml", "current_dir", "/abs/model_dir");
    assert_eq!(
        PathBuf::from("/abs/model_dir/current_dir/dir/some_file.yaml"),
        PathBuf::from(p)
    );

    let p = resolve_model_path("./some_file.yaml", "/abs/current_dir", "/model_dir");
    assert_eq!(PathBuf::from("/abs/current_dir/some_file.yaml"), PathBuf::from(p));

    let p = resolve_model_path("./../some_file.yaml", "/abs/current_dir", "/model_dir");
    assert_eq!(PathBuf::from("/abs/current_dir/../some_file.yaml"), PathBuf::from(p));
}

#[test]
fn relative_to_model() {
    let p = resolve_model_path("dir/some_file.yaml", "whatever", "/abs/model_dir");
    assert_eq!(PathBuf::from("/abs/model_dir/dir/some_file.yaml"), PathBuf::from(p));

    let p = resolve_model_path("some_file.yaml", "whatever", "/abs/model_dir");
    assert_eq!(PathBuf::from("/abs/model_dir/some_file.yaml"), PathBuf::from(p));

    let p = resolve_model_path("../some_file.yaml", "whatever", "/abs/model_dir");
    assert_eq!(PathBuf::from("/abs/model_dir/../some_file.yaml"), PathBuf::from(p));

    let p = resolve_model_path("dir/../some_file.yaml", "whatever", "/abs/model_dir");
    assert_eq!(PathBuf::from("/abs/model_dir/dir/../some_file.yaml"), PathBuf::from(p));
}

#[test]
fn absolute() {
    let p = resolve_model_path("/abs/path/some_file.yaml", "whatever", "whatever");
    assert_eq!(PathBuf::from("/abs/path/some_file.yaml"), PathBuf::from(p));
}

#[test]
fn documented_examples() {
    assert_eq!(
        resolve_model_path("./some_file.yaml", "current_dir", "/abs/path/model_dir"),
        "/abs/path/model_dir/current_dir/some_file.yaml"
    );
    assert_eq!(
        resolve_model_path("some_file.yaml", "current_dir", "/abs/path/model_dir"),
        "/abs/path/model_dir/some_file.yaml"
    );
    assert_eq!(
        resolve_model_path("/some/abs/path/some_file.yaml", "current_dir", "/abs/path/model_dir"),
        "/some/abs/path/some_file.yaml"
    );
}

#[test]
fn model_dir_with_trailing_separator() {
    assert_eq!(resolve_model_path("a.yaml", "cur", "/m/"), "/m/a.yaml");
}

#[test]
fn load_file_func_resolves_like_the_model() {
    let f = LoadFileFunc::new("/abs/model".to_string(), "sub".to_string());
    assert_eq!(f.resolve_path("./x.yaml"), "/abs/model/sub/x.yaml");
    assert_eq!(f.resolve_path("x.yaml"), "/abs/model/x.yaml");
    assert_eq!(f.resolve_path("/etc/x.yaml"), "/etc/x.yaml");
}

#[test]
fn absolute_paths_start_with_a_separator() {
    assert!(path_is_absolute("/a"));
    assert!(!path_is_absolute("a/b"));
    assert!(!path_is_absolute(""));
    assert!(!path_is_absolute("./a"));
}

#[test]
fn manifest_search_steps() {
    assert_eq!(manifest_candidate("/m/sub"), "/m/sub/op.toml");
    assert_eq!(manifest_step("/m/sub", ManifestProbe::File), ManifestStep::Found("/m/sub".to_string()));
    assert_eq!(manifest_step("/m/sub", ManifestProbe::Missing), ManifestStep::Next("/m".to_string()));
    assert_eq!(manifest_step("/m", ManifestProbe::Missing), ManifestStep::Next("/".to_string()));
    assert_eq!(manifest_step("/", ManifestProbe::Missing), ManifestStep::NotFound);
    assert_eq!(manifest_step("/m", ManifestProbe::NotFile), ManifestStep::NotFound);
    assert_eq!(manifest_step("/m", ManifestProbe::Failed), ManifestStep::Failed);
}

#[test]
fn absolute_model_dir_gives_absolute_paths() {
    for (p, cur) in [("", ""), ("./", "rel"), ("x", ""), ("./y", ""), ("../z", "c"), ("./a/b", "/abs")] {
        let r = resolve_model_path(p, cur, "/model");
        assert!(path_is_absolute(&r), "{} in {} gave {}", p, cur, r);
    }
}
