use v8_bridge::specifier::{normalize_module_path, resolve_module_specifier, split_specifier_prefix};

#[test]
fn split_prefix_of_file_url() {
    assert_eq!(split_specifier_prefix("file:///a/b.mjs"), ("file://", "/a/b.mjs"));
}

#[test]
fn split_prefix_of_url_with_authority() {
    assert_eq!(
        split_specifier_prefix("https://example.com/lib/x.js"),
        ("https://example.com", "/lib/x.js")
    );
}

#[test]
fn split_prefix_of_url_without_path() {
    assert_eq!(split_specifier_prefix("https://example.com"), ("https://example.com", ""));
}

#[test]
fn split_prefix_of_plain_path() {
    assert_eq!(split_specifier_prefix("/a/b.js"), ("", "/a/b.js"));
    assert_eq!(split_specifier_prefix("lodash"), ("", "lodash"));
}

#[test]
fn split_prefix_uses_first_scheme_separator() {
    assert_eq!(split_specifier_prefix("a://b/c://d/e"), ("a://b", "/c://d/e"));
}

#[test]
fn split_prefix_reassembles() {
    for s in ["file:///x/y.js", "https://h", "plain", "", "a://", "a:///"] {
        let (prefix, path) = split_specifier_prefix(s);
        assert_eq!(format!("{prefix}{path}"), s);
    }
}

#[test]
fn normalize_dots() {
    assert_eq!(normalize_module_path("/a/./b/../c"), "/a/c");
}

#[test]
fn normalize_relative_path_stays_relative() {
    assert_eq!(normalize_module_path("a//b/./c/"), "a/b/c");
}

#[test]
fn normalize_parent_above_root_is_dropped() {
    assert_eq!(normalize_module_path("/../../x"), "/x");
    assert_eq!(normalize_module_path("../x"), "x");
}

#[test]
fn normalize_empty_and_root() {
    assert_eq!(normalize_module_path(""), "");
    assert_eq!(normalize_module_path("/"), "/");
    assert_eq!(normalize_module_path("/./.."), "/");
}

#[test]
fn normalize_is_idempotent() {
    for p in ["/a/./b/../c", "a//b/../../../d", "/x/y/z/..", "./.", "/..//a"] {
        let once = normalize_module_path(p);
        assert_eq!(normalize_module_path(&once), once);
    }
}

#[test]
fn normalized_path_is_clean() {
    for p in ["/a/./b/../c", "a//b/../../../d", "/x/y/z/..", "./.", "/..//a/"] {
        let n = normalize_module_path(p);
        let body = n.strip_prefix('/').unwrap_or(&n);
        if !body.is_empty() {
            for segment in body.split('/') {
                assert!(!segment.is_empty());
                assert_ne!(segment, ".");
                assert_ne!(segment, "..");
            }
        }
    }
}

#[test]
fn resolve_parent() {
    assert_eq!(resolve_module_specifier("file:///a/b/main.js", "../c/d.js"), "file:///a/c/d.js");
}

#[test]
fn resolve_sibling() {
    assert_eq!(resolve_module_specifier("file:///main.mjs", "./dep.mjs"), "file:///dep.mjs");
    assert_eq!(
        resolve_module_specifier("file:///lib/main.mjs", "./util/x.mjs"),
        "file:///lib/util/x.mjs"
    );
}

#[test]
fn resolve_bare_specifier_unchanged() {
    assert_eq!(resolve_module_specifier("file:///lib/main.mjs", "lodash"), "lodash");
    assert_eq!(resolve_module_specifier("file:///lib/main.mjs", "/abs/x.js"), "/abs/x.js");
    assert_eq!(resolve_module_specifier("file:///lib/main.mjs", ".hidden"), ".hidden");
}

#[test]
fn resolve_against_referrer_without_directory() {
    assert_eq!(resolve_module_specifier("main.mjs", "./x.mjs"), "x.mjs");
    assert_eq!(resolve_module_specifier("https://h", "../x.mjs"), "https://hx.mjs");
}

#[test]
fn resolve_against_url_with_authority() {
    assert_eq!(
        resolve_module_specifier("https://example.com/a/b/c.js", "../../d.js"),
        "https://example.com/d.js"
    );
}

#[test]
fn resolved_import_stays_under_prefix() {
    let cases = [
        ("https://example.com/a/b.js", "../../x/./y.js"),
        ("file:///main.mjs", "./lib/../dep.mjs"),
        ("plain/dir/main.js", "./z.js"),
    ];
    for (referrer, specifier) in cases {
        let (prefix, _) = split_specifier_prefix(referrer);
        let resolved = resolve_module_specifier(referrer, specifier);
        assert!(resolved.starts_with(prefix));
        let rest = &resolved[prefix.len()..];
        assert_eq!(normalize_module_path(rest), rest);
    }
}
