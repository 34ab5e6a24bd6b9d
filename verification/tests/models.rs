use murmur::command::JobError;
use murmur::models::{
    downloaded_models, is_model_file, is_model_file_name, model_path_to_check,
    normalize_models_dir, place_of, select_models, Place,
};
use std::path::Path;

fn strings(items: &[&str]) -> Vec<String> {
    items.iter().map(|s| s.to_string()).collect()
}

fn chars(s: &str) -> Vec<char> {
    s.chars().collect()
}

#[test]
fn models_dir_as_configured() {
    assert_eq!(normalize_models_dir("/home/me/models"), "/home/me/models");
    assert_eq!(normalize_models_dir("  /home/me/models \n"), "/home/me/models");
    assert_eq!(normalize_models_dir(""), "");
}

#[test]
fn models_dir_from_a_file_url() {
    assert_eq!(normalize_models_dir("file:///home/me/models"), "/home/me/models");
    assert_eq!(normalize_models_dir("file:///C:/models"), "C:/models");
    assert_eq!(normalize_models_dir("file:///c:/models"), "c:/models");
    assert_eq!(normalize_models_dir("file://C:/models"), "C:/models");
    assert_eq!(normalize_models_dir("file:///1:/models"), "/1:/models");
    assert_eq!(normalize_models_dir("file:///C:"), "C:");
    assert_eq!(normalize_models_dir("file:///C"), "/C");
    assert_eq!(normalize_models_dir("file://"), "");
    assert_eq!(normalize_models_dir(" file:///é:/x "), "/é:/x");
}

#[test]
fn models_dir_between_quotes() {
    assert_eq!(normalize_models_dir("\"/home/me/models\""), "/home/me/models");
    assert_eq!(normalize_models_dir("\"\"/m\"\"\""), "/m");
    assert_eq!(normalize_models_dir(" \"/a \"b\" c\" "), "/a \"b\" c");
    assert_eq!(normalize_models_dir("\"\""), "");
    assert_eq!(normalize_models_dir("\""), "");
    assert_eq!(normalize_models_dir("file://\"/m\""), "/m");
    assert_eq!(normalize_models_dir("\"file:///m\""), "file:///m");
}

#[test]
fn embedded_model_needs_no_look() {
    assert_eq!(model_path_to_check(None, "ggml-tiny-q5_1.bin"), Ok(None));
    assert_eq!(model_path_to_check(Some("/m"), "ggml-tiny-q5_1.bin"), Ok(None));
}

#[test]
fn other_model_is_looked_for_in_the_models_dir() {
    let path = model_path_to_check(Some(" \"file:///m\" "), "ggml-base.bin").unwrap().unwrap();
    assert_eq!(Path::new(&path), Path::new("file:///m/ggml-base.bin"));
    let path = model_path_to_check(Some(" file:///m "), "ggml-base.bin").unwrap().unwrap();
    assert_eq!(Path::new(&path), Path::new("/m/ggml-base.bin"));
    assert_eq!(model_path_to_check(None, "ggml-base.bin"), Err(JobError::Configuration));
}

#[test]
fn model_files_by_name_and_extension() {
    assert!(is_model_file("ggml-base.bin", Some("bin")));
    assert!(is_model_file("ggml-base.BIN", Some("BIN")));
    assert!(is_model_file("ggml-", Some("Bin")));
    assert!(!is_model_file("ggml-base.bin", None));
    assert!(!is_model_file("ggml-base.bin", Some("bi")));
    assert!(!is_model_file("ggml-base.bin", Some("")));
    assert!(!is_model_file("GGML-base.bin", Some("bin")));
    assert!(!is_model_file("my-ggml-base.bin", Some("bin")));
    assert!(!is_model_file("ggml", Some("bin")));
}

#[test]
fn model_files_by_name() {
    assert!(is_model_file_name("ggml-base.bin"));
    assert!(is_model_file_name("ggml-large-v3.q5.BIN"));
    assert!(!is_model_file_name("ggml-base.bin.part"));
    assert!(!is_model_file_name("ggml-base"));
    assert!(!is_model_file_name("base.bin"));
    assert!(!is_model_file_name(""));
}

#[test]
fn order_of_strings() {
    assert_eq!(place_of(&chars("a"), &chars("b")), Place::Before);
    assert_eq!(place_of(&chars("b"), &chars("a")), Place::After);
    assert_eq!(place_of(&chars("ab"), &chars("ab")), Place::Same);
    assert_eq!(place_of(&chars(""), &chars("")), Place::Same);
    assert_eq!(place_of(&chars(""), &chars("a")), Place::Before);
    assert_eq!(place_of(&chars("ab"), &chars("abc")), Place::Before);
    assert_eq!(place_of(&chars("abc"), &chars("ab")), Place::After);
    assert_eq!(place_of(&chars("B"), &chars("a")), Place::Before);
    assert_eq!(place_of(&chars("z"), &chars("é")), Place::Before);
}

#[test]
fn order_of_strings_is_that_of_the_standard_library() {
    let words = ["", "a", "A", "ab", "abc", "b", "ggml-a.bin", "ggml-b.bin", "é", "中", "\u{10000}"];
    for a in words {
        for b in words {
            let expected = if a < b {
                Place::Before
            } else if a == b {
                Place::Same
            } else {
                Place::After
            };
            assert_eq!(place_of(&chars(a), &chars(b)), expected);
        }
    }
}

#[test]
fn models_are_chosen_sorted_and_listed_once() {
    let names = strings(&[
        "ggml-small.bin",
        "readme.txt",
        "ggml-base.bin",
        "ggml-small.bin",
        "ggml-base.en.BIN",
        "ggml-tiny.bin.part",
        "other.bin",
        "ggml-base.bin",
    ]);
    assert_eq!(
        select_models(&names),
        strings(&["ggml-base.bin", "ggml-base.en.BIN", "ggml-small.bin"])
    );
}

#[test]
fn models_of_nothing() {
    assert_eq!(select_models(&Vec::new()), Vec::<String>::new());
    assert_eq!(select_models(&strings(&["a", "b.bin"])), Vec::<String>::new());
}

#[test]
fn models_as_the_standard_library_sorts_them() {
    let names = strings(&[
        "ggml-z.bin", "ggml-a.bin", "ggml-M.bin", "ggml-m.bin", "ggml-0.bin", "ggml-é.bin",
        "ggml-a.bin", "ggml-.bin", "ggml-aa.bin",
    ]);
    let mut expected = names.clone();
    expected.sort();
    expected.dedup();
    assert_eq!(select_models(&names), expected);
}

#[test]
fn downloaded_models_need_a_directory() {
    let names = strings(&["ggml-b.bin", "ggml-a.bin"]);
    assert_eq!(downloaded_models(None, &names), Vec::<String>::new());
    assert_eq!(downloaded_models(Some("/m"), &names), strings(&["ggml-a.bin", "ggml-b.bin"]));
}
