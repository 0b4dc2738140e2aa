use cyrene::text::{
    contains_text, copy_texts, file_name, file_stem, last_segment, path_push, same_text, strip_prefix, text_compare,
    TextOrder,
};

#[test]
fn pushing_a_component_onto_a_path() {
    assert_eq!(path_push("/opt/apps", "node"), "/opt/apps/node");
    assert_eq!(path_push("/opt/apps/", "node"), "/opt/apps/node");
    assert_eq!(path_push("/opt/apps", "/usr/bin/node"), "/usr/bin/node");
    assert_eq!(path_push("", "node"), "node");
    assert_eq!(path_push("/opt/apps", ""), "/opt/apps/");
    assert_eq!(path_push("a", "b/c"), "a/b/c");
}

#[test]
fn pushing_agrees_with_the_standard_library() {
    let cases = [
        ("/opt/apps", "node"),
        ("/opt/apps/", "node/1.0.0"),
        ("/opt/apps", "/abs"),
        ("", "rel"),
        ("rel", ""),
        ("/", "x"),
        ("a/", "/b"),
        ("a//", "b"),
        ("/", ""),
        ("", ""),
        ("", "/"),
        ("a", "b/"),
        ("a/.", "../b"),
        ("\u{e9}", "\u{fc}/x"),
        ("a", "//b"),
    ];
    for (base, comp) in cases {
        let mut p = std::path::PathBuf::from(base);
        p.push(comp);
        assert_eq!(path_push(base, comp), p.to_string_lossy());
    }
}

#[test]
fn stripping_a_prefix_strips_every_repetition() {
    assert_eq!(strip_prefix("v1.2.3", "v"), "1.2.3");
    assert_eq!(strip_prefix("vvv1", "v"), "1");
    assert_eq!(strip_prefix("1.2.3", "v"), "1.2.3");
    assert_eq!(strip_prefix("release-release-1", "release-"), "1");
    assert_eq!(strip_prefix("abc", ""), "abc");
    assert_eq!(strip_prefix("", "v"), "");
    assert_eq!(strip_prefix("vv", "v"), "");
    assert_eq!(strip_prefix("ab", "abc"), "ab");
    assert_eq!(strip_prefix("ééa", "é"), "a");
    for (value, prefix) in [("vv1", "v"), ("abc", ""), ("aXaXb", "aX"), ("", "")] {
        assert_eq!(strip_prefix(value, prefix), value.trim_start_matches(prefix));
    }
}

#[test]
fn last_segment_of_a_url() {
    assert_eq!(last_segment("https://host/dir/file.tar.gz"), "file.tar.gz");
    assert_eq!(last_segment("https://host/dir/file.tar.gz///"), "file.tar.gz");
    assert_eq!(last_segment("file"), "file");
    assert_eq!(last_segment(""), "");
    assert_eq!(last_segment("///"), "");
    assert_eq!(last_segment("a/b/"), "b");
}

#[test]
fn texts_compare_by_their_bytes() {
    assert_eq!(text_compare("abc", "abd"), TextOrder::Less);
    assert_eq!(text_compare("abc", "abc"), TextOrder::Equal);
    assert_eq!(text_compare("abd", "abc"), TextOrder::Greater);
    assert_eq!(text_compare("ab", "abc"), TextOrder::Less);
    assert_eq!(text_compare("", ""), TextOrder::Equal);
    assert_eq!(text_compare("b", "abc"), TextOrder::Greater);
    assert_eq!(text_compare("z", "é"), TextOrder::Less);
    assert!(same_text("node", "node"));
    assert!(!same_text("node", "nodejs"));
}

#[test]
fn lists_of_texts() {
    let list = vec!["a".to_string(), "b".to_string()];
    assert_eq!(copy_texts(&list), list);
    assert!(contains_text(&list, "b"));
    assert!(!contains_text(&list, "c"));
}

#[test]
fn file_names_and_stems() {
    assert_eq!(file_stem("/plugins/node.rn"), Some("node".to_string()));
    assert_eq!(file_stem("node.tar.gz"), Some("node.tar".to_string()));
    assert_eq!(file_stem(".bashrc"), Some(".bashrc".to_string()));
    assert_eq!(file_stem("dir/file"), Some("file".to_string()));
    assert_eq!(file_stem("dir/file."), Some("file".to_string()));
    assert_eq!(file_stem("dir/.."), None);
    assert_eq!(file_stem("/"), None);
    assert_eq!(file_stem(""), None);
    assert_eq!(file_name("a/b/./"), Some("b".to_string()));
    assert_eq!(file_name("a/b//"), Some("b".to_string()));
    assert_eq!(file_name("."), None);
}

#[test]
fn file_names_agree_with_the_standard_library() {
    let cases = [
        "", "/", ".", "..", "a", "a/", "a/.", "a/./", "a/..", "/a/b.c", "/a/b.c.d", ".x", "a/.x",
        "a/.x.y", "x.", "..x", "a//b", "a/b/././/", "./", "/.", "/..", "a./b.", "...", "a/...",
        "./a", "../a.rn", "a/b/..rn", "é.rn", "a/é/.",
    ];
    for case in cases {
        let path = std::path::Path::new(case);
        let name = path.file_name().map(|n| n.to_string_lossy().to_string());
        let stem = path.file_stem().map(|n| n.to_string_lossy().to_string());
        assert_eq!(file_name(case), name, "file name of {:?}", case);
        assert_eq!(file_stem(case), stem, "file stem of {:?}", case);
    }
}
