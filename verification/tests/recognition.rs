//! Recognition of the tag attribute in its different spellings.

use test_tag::ast::ArgToken;
use test_tag::ast::Attr;
use test_tag::ast::AttrArgs;
use test_tag::ast::AttrPath;
use test_tag::collect::is_test_tag_attr;
use test_tag::emit::is_marker_attr;

fn list_attr(leading_colon: bool, segments: &[&str]) -> Attr {
    Attr {
        path: AttrPath {
            leading_colon,
            segments: segments.iter().map(|s| s.to_string()).collect(),
        },
        args: AttrArgs::List {
            tokens: vec![ArgToken::Ident("xxx".to_string())],
            raw: "xxx".to_string(),
        },
    }
}

fn bare_attr(leading_colon: bool, segments: &[&str]) -> Attr {
    Attr {
        path: AttrPath {
            leading_colon,
            segments: segments.iter().map(|s| s.to_string()).collect(),
        },
        args: AttrArgs::Empty,
    }
}

/// Check that the tag attribute is recognized in its different shapes
/// and forms, and that the plain `test` marker never is.
#[test]
fn test_tag_attr_recognition() {
    assert!(is_test_tag_attr(&list_attr(false, &["tag"])));
    assert!(!is_test_tag_attr(&bare_attr(false, &["test"])));

    assert!(is_test_tag_attr(&list_attr(false, &["test_tag", "tag"])));
    assert!(!is_test_tag_attr(&bare_attr(false, &["test"])));

    assert!(is_test_tag_attr(&list_attr(true, &["test_tag", "tag"])));
    assert!(!is_test_tag_attr(&bare_attr(false, &["test"])));
}

/// A root-qualified bare `tag`, a longer path, and unrelated names are
/// not tag attributes.
#[test]
fn non_tag_paths_rejected() {
    assert!(!is_test_tag_attr(&list_attr(true, &["tag"])));
    assert!(!is_test_tag_attr(&list_attr(false, &["test_tag", "tag", "extra"])));
    assert!(!is_test_tag_attr(&list_attr(false, &["other_crate", "tag"])));
    assert!(!is_test_tag_attr(&bare_attr(false, &["ignore"])));
}

/// The "is-a-test" marker is exactly the single unqualified `test`
/// path.
#[test]
fn marker_recognition() {
    assert!(is_marker_attr(&bare_attr(false, &["test"])));
    assert!(!is_marker_attr(&bare_attr(true, &["test"])));
    assert!(!is_marker_attr(&bare_attr(false, &["tokio", "test"])));
    assert!(!is_marker_attr(&bare_attr(false, &["tag"])));
}
