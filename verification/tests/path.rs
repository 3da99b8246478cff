//! Paths as text, held to the standard library's own.

use std::path::Path;

use yevice::path::extension;
use yevice::path::extension_is;
use yevice::path::file_name;
use yevice::path::join;
use yevice::path::parent;
use yevice::path::paths_equal;

fn samples() -> Vec<&'static str> {
    vec![
        "",
        ".",
        "..",
        "/",
        "a",
        "a/",
        "a//",
        "/a",
        "a/b",
        "a//b",
        "a/./b",
        "./a",
        "a/.",
        "a/..",
        "../a",
        "main.tf",
        "d/main.TF",
        ".hidden",
        "d/.hidden.tf",
        "a.auto.tfvars",
        "name.",
        "/.",
        "/a/b/",
    ]
}

fn text(p: Option<&Path>) -> Option<String> {
    p.map(|p| p.to_str().unwrap().to_string())
}

#[test]
fn parts_agree_with_the_standard_library() {
    for s in samples() {
        let p = Path::new(s);
        assert_eq!(
            file_name(s),
            p.file_name().map(|n| n.to_str().unwrap().to_string()),
            "file name of {s:?}"
        );
        assert_eq!(parent(s), text(p.parent()), "parent of {s:?}");
        assert_eq!(
            extension(s),
            p.extension().map(|n| n.to_str().unwrap().to_string()),
            "extension of {s:?}"
        );
    }
}

#[test]
fn equality_agrees_with_the_standard_library() {
    for a in samples() {
        for b in samples() {
            assert_eq!(
                paths_equal(a, b),
                Path::new(a) == Path::new(b),
                "{a:?} and {b:?}"
            );
        }
    }
}

#[test]
fn joining_agrees_with_the_standard_library() {
    for a in samples() {
        for name in ["wrangler.toml", "x"] {
            assert_eq!(
                join(a, name),
                Path::new(a).join(name).to_str().unwrap(),
                "{a:?} and {name:?}"
            );
        }
    }
}

#[test]
fn extensions_are_compared_in_any_case() {
    assert!(extension_is("d/main.TF", "tf"));
    assert!(!extension_is("d/main.tfvars", "tf"));
    assert!(!extension_is("tf", "tf"));
}
