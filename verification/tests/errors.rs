//! The engine's error conditions.

use test_tag::ast::ArgToken;
use test_tag::ast::Attr;
use test_tag::ast::AttrArgs;
use test_tag::ast::AttrPath;
use test_tag::ast::FnItem;
use test_tag::render::error_message;
use test_tag::render::render_error;
use test_tag::tag;
use test_tag::tags::parse_tags;
use test_tag::tags::TagError;
use test_tag::try_tag;

fn ident(s: &str) -> ArgToken {
    ArgToken::Ident(s.to_string())
}

fn path(leading_colon: bool, segments: &[&str]) -> AttrPath {
    AttrPath {
        leading_colon,
        segments: segments.iter().map(|s| s.to_string()).collect(),
    }
}

fn marker_attr() -> Attr {
    Attr { path: path(false, &["test"]), args: AttrArgs::Empty }
}

fn plain_fn(name: &str, attrs: Vec<Attr>) -> FnItem {
    FnItem {
        attrs,
        vis: String::new(),
        sig_head: String::new(),
        name: name.to_string(),
        sig_tail: "()".to_string(),
        body: "{}".to_string(),
    }
}

/// Unsupported key-value syntax in the direct argument list:
/// `tag(tag1 = "foobar")` must not produce a usable unit.
#[test]
fn cant_compile() {
    let args = vec![ident("tag1"), ArgToken::EqSign, ArgToken::Other];
    let item = plain_fn("cant_compile", vec![marker_attr()]);
    let err = try_tag(&args, item).unwrap_err();
    assert_eq!(err, TagError::UnsupportedAttributeArgumentShape);
}

/// Unsupported key-value syntax in a second tag attribute:
/// `tag(tag1)` plus `tag(tag2 = "foobar")` must not produce a usable
/// unit either.
#[test]
fn unsupported_tag_syntax_2_cant_compile() {
    let args = vec![ident("tag1")];
    let second = Attr {
        path: path(false, &["test_tag", "tag"]),
        args: AttrArgs::List {
            tokens: vec![ident("tag2"), ArgToken::EqSign, ArgToken::Other],
            raw: "tag2 = \"foobar\"".to_string(),
        },
    };
    let item = plain_fn("cant_compile", vec![second, marker_attr()]);
    let err = try_tag(&args, item).unwrap_err();
    assert_eq!(err, TagError::UnsupportedAttributeArgumentShape);
}

/// An empty tag list is always rejected, whether it is the direct
/// argument list or a tag attribute without arguments.
#[test]
fn empty_tag_list_rejected() {
    let args: Vec<ArgToken> = Vec::new();
    let item = plain_fn("f", vec![marker_attr()]);
    let err = try_tag(&args, item).unwrap_err();
    assert_eq!(err, TagError::EmptyTagList);

    let bare = Attr { path: path(false, &["test_tag", "tag"]), args: AttrArgs::Empty };
    let item = plain_fn("f", vec![bare, marker_attr()]);
    let err = try_tag(&vec![ident("tag1")], item).unwrap_err();
    assert_eq!(err, TagError::EmptyTagList);
}

/// A key-value attribute form, `#[test_tag::tag = "v"]`, is rejected.
#[test]
fn key_value_attribute_rejected() {
    let kv = Attr {
        path: path(false, &["test_tag", "tag"]),
        args: AttrArgs::NameValue { raw: "\"v\"".to_string() },
    };
    let item = plain_fn("f", vec![kv, marker_attr()]);
    let err = try_tag(&vec![ident("tag1")], item).unwrap_err();
    assert_eq!(err, TagError::UnsupportedAttributeArgumentShape);
}

/// Anything that is not a comma-separated identifier list is rejected.
#[test]
fn malformed_tag_list_rejected() {
    let args = vec![ArgToken::Other];
    let item = plain_fn("f", vec![marker_attr()]);
    assert_eq!(try_tag(&args, item).unwrap_err(), TagError::MalformedTagList);

    let args = vec![ident("a"), ident("b")];
    assert_eq!(parse_tags(&args).unwrap_err(), TagError::MalformedTagList);

    let args = vec![ident("a"), ArgToken::Comma, ArgToken::Comma, ident("b")];
    assert_eq!(parse_tags(&args).unwrap_err(), TagError::MalformedTagList);
}

/// The first offending attribute wins: the direct list's error comes
/// before any attribute's, and attributes are scanned in order.
#[test]
fn first_error_wins() {
    let args: Vec<ArgToken> = Vec::new();
    let kv = Attr {
        path: path(false, &["test_tag", "tag"]),
        args: AttrArgs::NameValue { raw: "\"v\"".to_string() },
    };
    let item = plain_fn("f", vec![kv]);
    assert_eq!(try_tag(&args, item).unwrap_err(), TagError::EmptyTagList);
}

/// Each error condition has its own diagnostic, and an error unit is
/// emitted in place of the rewritten one.
#[test]
fn error_diagnostics() {
    assert_eq!(
        error_message(&TagError::EmptyTagList),
        "at least one tag is required: #[test_tag::tag(<tags...>)]"
    );
    assert_eq!(
        error_message(&TagError::UnsupportedAttributeArgumentShape),
        "encountered unexpected argument to `tag` attribute; expected list of tags"
    );
    assert_eq!(
        error_message(&TagError::MalformedTagList),
        "expected a comma-separated list of tag identifiers"
    );
    assert_eq!(
        render_error(&TagError::EmptyTagList),
        "compile_error! { \"at least one tag is required: #[test_tag::tag(<tags...>)]\" }\n"
    );
    let out = tag(&Vec::new(), plain_fn("f", vec![marker_attr()]));
    assert_eq!(
        out,
        "compile_error! { \"at least one tag is required: #[test_tag::tag(<tags...>)]\" }\n"
    );

    let kv = Attr {
        path: path(false, &["test_tag", "tag"]),
        args: AttrArgs::NameValue { raw: "\"v\"".to_string() },
    };
    let out = tag(&vec![ident("tag1")], plain_fn("f", vec![kv]));
    assert_eq!(
        out,
        "compile_error! { \"encountered unexpected argument to `tag` attribute; expected list of tags\" }\n"
    );
}
