use dino_cli::backend::weights_path;
use dino_cli::resolve::{
    check_repo_filename, choose_model_file, model_file_name, model_source, offline_model_names,
    prefer_override, required_files, weights_file_name, ModelSource, ResolveError, CONFIG_FILE,
    DEFAULT_MODEL_FILE, PREPROCESSOR_CONFIG_FILE,
};

fn names(v: &[&str]) -> Vec<String> {
    v.iter().map(|s| s.to_string()).collect()
}

#[test]
fn file_names() {
    assert_eq!(DEFAULT_MODEL_FILE, "openvino_model.xml");
    assert_eq!(PREPROCESSOR_CONFIG_FILE, "preprocessor_config.json");
    assert_eq!(CONFIG_FILE, "config.json");
    assert_eq!(model_file_name(&None), "openvino_model.xml");
    assert_eq!(model_file_name(&Some("onnx/model.onnx".to_string())), "onnx/model.onnx");
}

#[test]
fn unsafe_names_are_refused() {
    for n in ["/etc/passwd", "..", "../x", "a/../b", "a/.."] {
        assert!(matches!(check_repo_filename(n), Err(ResolveError::UnsafeFilename)), "{n}");
    }
    for n in ["a/b.onnx", "..a", "a..", "a/...", ".x/y", "a/..b/c", ""] {
        assert!(check_repo_filename(n).is_ok(), "{n}");
    }
}

#[test]
fn default_model_is_preferred() {
    let listing = names(&["README.md", "model.onnx", "openvino_model.xml", "other.xml"]);
    let cached = vec![false; 4];
    assert_eq!(choose_model_file(&None, &listing, false, &cached, false).unwrap(), "openvino_model.xml");
    assert_eq!(
        choose_model_file(&Some("x/y.onnx".to_string()), &listing, false, &cached, false).unwrap(),
        "x/y.onnx"
    );
}

#[test]
fn unique_candidate_is_taken() {
    let listing = names(&["README.md", "onnx/model.onnx", "config.json"]);
    let cached = vec![false; 3];
    assert_eq!(choose_model_file(&None, &listing, false, &cached, false).unwrap(), "onnx/model.onnx");
}

#[test]
fn ambiguous_candidates_are_reported() {
    let listing = names(&["a.onnx", "b.xml", "c.bin"]);
    let cached = vec![false; 3];
    match choose_model_file(&None, &listing, false, &cached, false) {
        Err(ResolveError::AmbiguousModel { candidates }) => assert_eq!(candidates, vec!["a.onnx", "b.xml"]),
        other => panic!("unexpected {other:?}"),
    }
    match choose_model_file(&None, &names(&["README.md"]), false, &vec![false], false) {
        Err(ResolveError::AmbiguousModel { candidates }) => assert!(candidates.is_empty()),
        other => panic!("unexpected {other:?}"),
    }
}

#[test]
fn offline_uses_cache() {
    let listing = offline_model_names();
    assert_eq!(listing, vec!["openvino_model.xml", "model.onnx"]);
    assert_eq!(
        choose_model_file(&None, &listing, true, &vec![true, true], true).unwrap(),
        "openvino_model.xml"
    );
    assert_eq!(
        choose_model_file(&None, &listing, true, &vec![false, true], false).unwrap(),
        "model.onnx"
    );
    assert!(choose_model_file(&None, &listing, true, &vec![false, false], false).is_err());
}

#[test]
fn ir_weights_follow_the_model() {
    assert_eq!(weights_file_name("openvino_model.xml"), Some("openvino_model.bin".to_string()));
    assert_eq!(weights_file_name("a.xml.xml"), Some("a.bin".to_string()));
    assert_eq!(weights_file_name("dir/m.xml"), Some("dir/m.bin".to_string()));
    assert_eq!(weights_file_name("model.onnx"), None);
    assert_eq!(
        required_files(&"m.xml".to_string(), &names(&["m.onnx_data"])),
        vec!["m.xml", "m.onnx_data", "m.bin"]
    );
    assert_eq!(required_files(&"m.onnx".to_string(), &vec![]), vec!["m.onnx"]);
}

#[test]
fn fetched_weights_are_the_ones_read() {
    for name in ["openvino_model.xml", "ir/model.xml", "a.b.xml"] {
        assert_eq!(weights_file_name(name), Some(weights_path(name)), "{name}");
    }
    // A stem that itself ends in `.xml` is trimmed for the download but not for reading.
    assert_eq!(weights_file_name("a.xml.xml"), Some("a.bin".to_string()));
    assert_eq!(weights_path("a.xml.xml"), "a.xml.bin");
}

#[test]
fn model_sources() {
    assert!(matches!(model_source(true, true), Ok(ModelSource::Local)));
    assert!(matches!(model_source(true, false), Ok(ModelSource::Local)));
    assert!(matches!(model_source(false, true), Ok(ModelSource::Hub)));
    assert!(matches!(model_source(false, false), Err(ResolveError::NoModelGiven)));
}

#[test]
fn given_file_wins() {
    assert_eq!(prefer_override(Some("a.json"), Some("b.json")), Some("a.json"));
    assert_eq!(prefer_override(None, Some("b.json")), Some("b.json"));
    assert_eq!(prefer_override(Some("a.json"), None), Some("a.json"));
    assert_eq!(prefer_override::<&str>(None, None), None);
}
