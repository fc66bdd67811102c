use comfyui_workflows::paths::{dir_name_of, extension_of, file_name_of, join_path, path_names_of};
use comfyui_workflows::workflow::subfolder;
use std::path::Path;

const SAMPLES: [&str; 30] = [
    "", "/", "//", ".", "./", "..", "../", "a", "a/", "a//", "a/.", "a/./", "./a", "/a", "a/b",
    "a//b", "a/./b", "a/b/", "a/..", "../a", "a/../b", "a/b/..", "/a/b/c.json", ".hidden",
    "a.b.c", "a.", "./.", "x/.y", "preview/sdxl_turbo_korean_preview.json", "/m/preview/a.json",
];

fn std_file_name(p: &str) -> Option<String> {
    Path::new(p).file_name().map(|f| f.to_string_lossy().into_owned())
}

#[test]
fn file_names_agree_with_std() {
    for p in SAMPLES {
        assert_eq!(file_name_of(p), std_file_name(p), "file name of {:?}", p);
    }
}

#[test]
fn dir_names_agree_with_std() {
    for p in SAMPLES {
        let expected = Path::new(p)
            .parent()
            .and_then(|d| d.file_name())
            .map(|f| f.to_string_lossy().into_owned());
        assert_eq!(dir_name_of(p), expected, "directory name of {:?}", p);
        assert_eq!(subfolder(p), expected.unwrap_or_else(|| "default".to_string()));
    }
}

#[test]
fn extensions_agree_with_std() {
    for p in SAMPLES {
        let expected = Path::new(p).extension().map(|e| e.to_string_lossy().into_owned());
        assert_eq!(extension_of(p), expected, "extension of {:?}", p);
    }
}

#[test]
fn joins_agree_with_std() {
    for base in ["", "/", "a", "a/", "/opt/x", "/opt/x/"] {
        for rel in ["", "b", "b/c", "/abs", "./b", "../b"] {
            let expected = Path::new(base).join(rel).to_string_lossy().into_owned();
            assert_eq!(join_path(base, rel), expected, "join of {:?} and {:?}", base, rel);
        }
    }
}

#[test]
fn path_names_drop_empty_and_dot_segments() {
    assert_eq!(path_names_of("/a//./b/../c/"), vec!["a", "b", "..", "c"]);
    assert_eq!(path_names_of("./."), Vec::<String>::new());
    assert_eq!(file_name_of("/m/preview/a.json"), Some("a.json".to_string()));
    assert_eq!(dir_name_of("/m/preview/a.json"), Some("preview".to_string()));
    assert_eq!(extension_of("x/.y"), None);
    assert_eq!(extension_of("a."), Some(String::new()));
}
