use rift::error::RiftError;
use std::path::Path;
use rift::paths::{extension, extension_or_empty, file_name, file_stem, join, with_extension};
use rift::text::{decimal_string, to_lowercase};

#[test]
fn file_names_and_extensions() {
    assert_eq!(file_name("a/b/c.tar.gz").as_deref(), Some("c.tar.gz"));
    assert_eq!(extension("a/b/c.tar.gz").as_deref(), Some("gz"));
    assert_eq!(file_stem("a/b/c.tar.gz").as_deref(), Some("c.tar"));
    assert_eq!(extension("a/.hidden"), None);
    assert_eq!(file_stem("a/.hidden").as_deref(), Some(".hidden"));
    assert_eq!(extension("a/b.").as_deref(), Some(""));
    assert_eq!(file_name("a/.."), None);
    assert_eq!(file_name("a/").as_deref(), Some("a"));
    assert_eq!(file_name("a/b/").as_deref(), Some("b"));
    assert_eq!(file_name("x/.").as_deref(), Some("x"));
    assert_eq!(file_name("/."), None);
    assert_eq!(file_name("./"), None);
    assert_eq!(extension_or_empty("Makefile"), "");
}

#[test]
fn joining_and_extensions() {
    assert_eq!(join("a/b", "c"), "a/b/c");
    assert_eq!(join("a/b/", "c"), "a/b/c");
    assert_eq!(join("", "c"), "c");
    assert_eq!(join("a", "/abs"), "/abs");
    assert_eq!(with_extension("a/b.png", "png.meta"), "a/b.png.meta");
    assert_eq!(with_extension("a/b.png", ""), "a/b");
    assert_eq!(with_extension("a/b", "json"), "a/b.json");
    assert_eq!(with_extension("a/..", "x"), "a/..");
}

#[test]
fn text_helpers_and_error_messages() {
    assert_eq!(to_lowercase("PNG"), "png");
    assert_eq!(decimal_string(0), "0");
    assert_eq!(decimal_string(18446744073709551615), "18446744073709551615");
    assert_eq!(RiftError::Other("plain".into()).message(), "plain");
    assert_eq!(RiftError::Engine("x".into()).message(), "Engine export error: x");
    assert_eq!(RiftError::Yaml("y".into()).message(), "YAML parse error: y");
}

#[test]
fn paths_agree_with_std() {
    let paths = [
        "a/b/c.tar.gz", "a/.hidden", "a/b.", "a/..", "a/", "a/b/", "x/.", "x/./", "x/.//", "/.", "./", ".",
        "..", "/", "", "a//b.png", "a/./b.png", "a/b.png/", "art.PSD", "dir/noext", "/abs/x.y",
    ];
    for p in paths {
        let sp = Path::new(p);
        assert_eq!(file_name(p).as_deref(), sp.file_name().and_then(|s| s.to_str()), "file_name {:?}", p);
        assert_eq!(extension(p).as_deref(), sp.extension().and_then(|s| s.to_str()), "extension {:?}", p);
        assert_eq!(file_stem(p).as_deref(), sp.file_stem().and_then(|s| s.to_str()), "file_stem {:?}", p);
        for ext in ["json", "", "png.meta"] {
            assert_eq!(
                with_extension(p, ext),
                sp.with_extension(ext).to_str().unwrap(),
                "with_extension {:?} {:?}",
                p,
                ext
            );
        }
    }
}
