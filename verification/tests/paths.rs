use std::collections::HashSet;
use std::path::Path;

use karl::error::Error;
use karl::package::{get_mapped_dirs, resolve_binary_path, resolve_import_paths};
use karl::path::{file_name, is_absolute, join};

const SAMPLES: &[&str] = &[
    "", "/", "//", ".", "..", "./", "../", "a", "a/", "a//", "/a", "/a/", "a/b", "a/b/",
    "a/.", "a/./", "a/..", "a/../", "./a", "../a", "a/./b", "a/../b", "/a/b/c.wasm",
    "bin/x", ".hidden", "a/.hidden/", "...", "a/...", "x y/z", "é/ü", "./.", "/.", "/..",
    "a/.//.//", "foo.txt/.//", "tmp/foo.txt",
];

#[test]
fn join_agrees_with_std() {
    for base in SAMPLES {
        for p in SAMPLES {
            let expected = Path::new(base).join(p);
            assert_eq!(join(base, p), expected.to_str().unwrap(), "join({:?}, {:?})", base, p);
        }
    }
}

#[test]
fn join_examples() {
    assert_eq!(join("/home/me/.karl", "42"), "/home/me/.karl/42");
    assert_eq!(join("/root/", "bin"), "/root/bin");
    assert_eq!(join("", "x"), "x");
    assert_eq!(join("/root", "/etc/passwd"), "/etc/passwd");
    assert_eq!(join("a", ""), "a/");
}

#[test]
fn file_name_agrees_with_std() {
    for p in SAMPLES {
        let expected = Path::new(p).file_name().map(|n| n.to_str().unwrap().to_string());
        assert_eq!(file_name(p), expected, "file_name({:?})", p);
    }
}

#[test]
fn file_name_examples() {
    assert_eq!(file_name("/usr/bin/"), Some("bin".to_string()));
    assert_eq!(file_name("tmp/foo.txt"), Some("foo.txt".to_string()));
    assert_eq!(file_name("foo.txt/."), Some("foo.txt".to_string()));
    assert_eq!(file_name("foo.txt/.//"), Some("foo.txt".to_string()));
    assert_eq!(file_name("foo.txt/.."), None);
    assert_eq!(file_name("/"), None);
    assert_eq!(file_name(""), None);
}

#[test]
fn absolute_paths() {
    assert!(is_absolute("/a"));
    assert!(is_absolute("/"));
    assert!(!is_absolute("a/b"));
    assert!(!is_absolute(""));
}

#[test]
fn mapped_dirs_mount_imports_at_root() {
    let dirs = get_mapped_dirs(vec!["/k/local/a".to_string(), "/k/local/b".to_string()]);
    assert_eq!(dirs, vec![".:/k/local/a".to_string(), ".:/k/local/b".to_string()]);
    assert!(get_mapped_dirs(vec![]).is_empty());
}

#[test]
fn import_paths_in_order() {
    let imports = vec!["python".to_string(), "node".to_string()];
    let res = resolve_import_paths("/k", &imports, |i: &String, k: &str| Ok(format!("{}/local/{}", k, i)));
    assert_eq!(res.unwrap(), vec!["/k/local/python".to_string(), "/k/local/node".to_string()]);
}

#[test]
fn import_paths_stop_at_first_error() {
    let imports = vec!["a".to_string(), "bad".to_string(), "c".to_string()];
    let calls = std::cell::Cell::new(0);
    let res = resolve_import_paths("/k", &imports, |i: &String, _k: &str| {
        calls.set(calls.get() + 1);
        if i == "bad" {
            Err(Error::InstallImportError(i.clone()))
        } else {
            Ok(i.clone())
        }
    });
    match res {
        Err(Error::InstallImportError(m)) => assert_eq!(m, "bad"),
        _ => panic!("expected the error of the second import"),
    }
    assert_eq!(calls.get(), 2);
}

fn exists_in(set: &HashSet<String>) -> impl Fn(&str) -> bool + '_ {
    move |p: &str| set.contains(p)
}

#[test]
fn binary_found_at_package_root_first() {
    let fs: HashSet<String> = ["/r/bin/app", "/i/bin/app"].iter().map(|s| s.to_string()).collect();
    let imports = vec!["/i".to_string()];
    let res = resolve_binary_path("bin/app", "/r", &imports, exists_in(&fs));
    assert_eq!(res.unwrap(), "/r/bin/app");
}

#[test]
fn binary_found_in_import_bin_dir() {
    let fs: HashSet<String> = ["/i2/bin/app", "/i2/pkg/app"].iter().map(|s| s.to_string()).collect();
    let imports = vec!["/i1".to_string(), "/i2".to_string()];
    let res = resolve_binary_path("pkg/app", "/r", &imports, exists_in(&fs));
    assert_eq!(res.unwrap(), "/i2/bin/app");
}

#[test]
fn binary_found_relative_to_import() {
    let fs: HashSet<String> = ["/i2/pkg/app"].iter().map(|s| s.to_string()).collect();
    let imports = vec!["/i1".to_string(), "/i2".to_string()];
    let res = resolve_binary_path("pkg/app", "/r", &imports, exists_in(&fs));
    assert_eq!(res.unwrap(), "/i2/pkg/app");
}

#[test]
fn binary_not_found() {
    let fs: HashSet<String> = HashSet::new();
    let imports = vec!["/i1".to_string()];
    match resolve_binary_path("pkg/app", "/r", &imports, exists_in(&fs)) {
        Err(Error::BinaryNotFound(m)) => assert_eq!(m, "not found: \"pkg/app\""),
        _ => panic!("expected BinaryNotFound"),
    }
}

#[test]
fn binary_path_without_file_name_is_malformed() {
    let fs: HashSet<String> = ["/i1/bin/.."].iter().map(|s| s.to_string()).collect();
    let imports = vec!["/i1".to_string()];
    match resolve_binary_path("pkg/..", "/r", &imports, exists_in(&fs)) {
        Err(Error::BinaryNotFound(m)) => assert_eq!(m, "malformed: \"pkg/..\""),
        _ => panic!("expected BinaryNotFound"),
    }
    // Found at the root, the missing file name does not matter.
    let fs: HashSet<String> = ["/r/pkg/.."].iter().map(|s| s.to_string()).collect();
    assert_eq!(resolve_binary_path("pkg/..", "/r", &imports, exists_in(&fs)).unwrap(), "/r/pkg/..");
}

#[test]
fn absolute_binary_path_replaces_root() {
    let fs: HashSet<String> = ["/usr/bin/python"].iter().map(|s| s.to_string()).collect();
    let res = resolve_binary_path("/usr/bin/python", "/r", &vec![], exists_in(&fs));
    assert_eq!(res.unwrap(), "/usr/bin/python");
}

#[test]
fn malformed_binary_path_ignores_relative_imports() {
    let fs: HashSet<String> = HashSet::new();
    let imports = vec!["relative/import".to_string()];
    match resolve_binary_path("a/..", "/r", &imports, exists_in(&fs)) {
        Err(Error::BinaryNotFound(m)) => assert!(m.starts_with("malformed")),
        _ => panic!("expected BinaryNotFound"),
    }
}
