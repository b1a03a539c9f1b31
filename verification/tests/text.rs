use syntect_assets::text::{extension, file_name, str_eq, str_lt, strip_suffix};

#[test]
fn file_name_of_plain_paths() {
    assert_eq!(file_name("src/main.rs"), Some("main.rs"));
    assert_eq!(file_name("main.rs"), Some("main.rs"));
    assert_eq!(file_name("/etc/profile"), Some("profile"));
    assert_eq!(file_name("a/b/"), Some("b"));
    assert_eq!(file_name("a/b/."), Some("b"));
    assert_eq!(file_name("a//b"), Some("b"));
}

#[test]
fn file_name_is_none_for_roots_and_dots() {
    assert_eq!(file_name(""), None);
    assert_eq!(file_name("/"), None);
    assert_eq!(file_name("."), None);
    assert_eq!(file_name("./"), None);
    assert_eq!(file_name(".."), None);
    assert_eq!(file_name("a/.."), None);
}

#[test]
fn file_name_agrees_with_std_path() {
    for p in ["src/main.rs", "a/b/", "a/b/.", "", "/", ".", "..", "a/..", "./x", ".bashrc", "x/.y.z", "é/ü.rs"] {
        let expected = std::path::Path::new(p).file_name().map(|f| f.to_str().unwrap());
        assert_eq!(file_name(p), expected, "path {:?}", p);
    }
}

#[test]
fn extension_agrees_with_std_path() {
    for p in ["main.rs", "a/b.tar.gz", ".bashrc", "x/.y.z", "noext", "dot.", "..", "a/b/", "é/ü.rs"] {
        let expected = std::path::Path::new(p).extension().map(|f| f.to_str().unwrap());
        assert_eq!(extension(p), expected, "path {:?}", p);
    }
}

#[test]
fn extension_examples() {
    assert_eq!(extension("foo.rs"), Some("rs"));
    assert_eq!(extension(".bashrc"), None);
    assert_eq!(extension("archive.tar.gz"), Some("gz"));
    assert_eq!(extension("trailing."), Some(""));
}

#[test]
fn strip_suffix_examples() {
    assert_eq!(strip_suffix("foo.rs.bak", ".bak"), Some("foo.rs"));
    assert_eq!(strip_suffix("foo.rs", ".bak"), None);
    assert_eq!(strip_suffix("~", "~"), Some(""));
    assert_eq!(strip_suffix("a", "ab"), None);
}

#[test]
fn comparisons() {
    assert!(str_eq("abc", "abc"));
    assert!(!str_eq("abc", "abd"));
    assert!(!str_eq("abc", "ab"));
    assert!(str_lt("ab", "abc"));
    assert!(str_lt("Monokai", "ansi"));
    assert!(!str_lt("abc", "abc"));
    assert!(!str_lt("b", "a"));
    assert_eq!(str_lt("ä", "z"), "ä" < "z");
}
