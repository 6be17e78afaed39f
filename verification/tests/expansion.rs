//! End-to-end scenarios for the rewriting engine.

use test_tag::ast::ArgToken;
use test_tag::ast::Attr;
use test_tag::ast::AttrArgs;
use test_tag::ast::AttrPath;
use test_tag::ast::FnItem;
use test_tag::tag;
use test_tag::try_tag;

fn ident(s: &str) -> ArgToken {
    ArgToken::Ident(s.to_string())
}

fn path(leading_colon: bool, segments: &[&str]) -> AttrPath {
    AttrPath {
        leading_colon,
        segments: segments.iter().map(|s| s.to_string()).collect(),
    }
}

fn tag_attr(segments: &[&str], tokens: Vec<ArgToken>, raw: &str) -> Attr {
    Attr {
        path: path(false, segments),
        args: AttrArgs::List { tokens, raw: raw.to_string() },
    }
}

fn marker_attr() -> Attr {
    Attr { path: path(false, &["test"]), args: AttrArgs::Empty }
}

fn plain_fn(name: &str, attrs: Vec<Attr>) -> FnItem {
    FnItem {
        attrs,
        vis: String::new(),
        sig_head: String::new(),
        name: name.to_string(),
        sig_tail: "()".to_string(),
        body: "{}".to_string(),
    }
}

/// One direct list plus one further tag attribute merge in order, and
/// the rewritten unit carries every declared tag as a module name.
#[test]
fn it_works() {
    assert_eq!(2 + 2, 4);
    let args = vec![ident("tag1"), ArgToken::Comma, ident("tag2")];
    let item = plain_fn(
        "it_works",
        vec![tag_attr(&["test_tag", "tag"], vec![ident("tag3")], "tag3"), marker_attr()],
    );
    let unit = try_tag(&args, item).unwrap();
    assert_eq!(unit.outer, "it_works");
    assert_eq!(unit.tags, vec!["tag1".to_string(), "tag2".to_string(), "tag3".to_string()]);
    assert_eq!(unit.func.name, "test");
    assert_eq!(unit.alias_name(), "it_works::tag1::tag2::tag3::test");
}

/// Merging is order-preserving: `tag(a, b)` directly plus a separate
/// `tag(c)` on the function yields the sequence [a, b, c].
#[test]
fn merge_preserves_order() {
    let args = vec![ident("a"), ArgToken::Comma, ident("b")];
    let item = plain_fn("f", vec![tag_attr(&["test_tag", "tag"], vec![ident("c")], "c")]);
    let unit = try_tag(&args, item).unwrap();
    assert_eq!(unit.tags, vec!["a".to_string(), "b".to_string(), "c".to_string()]);
    assert_eq!(unit.alias_name(), "f::a::b::c::test");
}

/// Re-declaring the identical tag twice yields two nesting layers with
/// the same name: degenerate, but not an error.
#[test]
fn duplicate_tags_are_kept() {
    let args = vec![ident("a")];
    let item = plain_fn("f", vec![tag_attr(&["test_tag", "tag"], vec![ident("a")], "a")]);
    let unit = try_tag(&args, item).unwrap();
    assert_eq!(unit.tags, vec!["a".to_string(), "a".to_string()]);
    assert_eq!(unit.alias_name(), "f::a::a::test");
}

/// A trailing comma in a tag list is accepted and adds nothing.
#[test]
fn trailing_comma_accepted() {
    let args = vec![ident("tag1")];
    let item = plain_fn(
        "test3",
        vec![
            Attr { path: path(false, &["rustfmt", "skip"]), args: AttrArgs::Empty },
            tag_attr(&["test_tag", "tag"], vec![ident("tag3"), ArgToken::Comma], "tag3,"),
            marker_attr(),
        ],
    );
    let unit = try_tag(&args, item).unwrap();
    assert_eq!(unit.tags, vec!["tag1".to_string(), "tag3".to_string()]);
    assert_eq!(unit.alias_name(), "test3::tag1::tag3::test");
}

/// The fixture functions tagged `tag1`; `tag1, tag2`; and `tag1` plus
/// separately `tag3` are discoverable by a name-substring filter:
/// `:tag1:` matches all three, `:tag2:` only the second, `:tag3:` only
/// the third.
#[test]
fn filterable_by_tag_substring() {
    let names = vec![
        try_tag(&vec![ident("tag1")], plain_fn("test1", vec![marker_attr()]))
            .unwrap()
            .alias_name(),
        try_tag(
            &vec![ident("tag1"), ArgToken::Comma, ident("tag2")],
            plain_fn("test2", vec![marker_attr()]),
        )
        .unwrap()
        .alias_name(),
        try_tag(
            &vec![ident("tag1")],
            plain_fn(
                "test3",
                vec![tag_attr(&["test_tag", "tag"], vec![ident("tag3")], "tag3"), marker_attr()],
            ),
        )
        .unwrap()
        .alias_name(),
    ];
    assert_eq!(names[0], "test1::tag1::test");
    assert_eq!(names[1], "test2::tag1::tag2::test");
    assert_eq!(names[2], "test3::tag1::tag3::test");
    let by_tag1: Vec<&String> = names.iter().filter(|n| n.contains(":tag1:")).collect();
    assert_eq!(by_tag1.len(), 3);
    let by_tag2: Vec<&String> = names.iter().filter(|n| n.contains(":tag2:")).collect();
    assert_eq!(by_tag2, vec![&names[1]]);
    let by_tag3: Vec<&String> = names.iter().filter(|n| n.contains(":tag3:")).collect();
    assert_eq!(by_tag3, vec![&names[2]]);
}

/// Pass-through attributes survive unchanged, in their original order,
/// while the bare `test` marker is rewritten in place.
#[test]
fn passthrough_attrs_survive_in_order() {
    let args = vec![ident("a")];
    let item = plain_fn(
        "f",
        vec![
            Attr { path: path(false, &["rustfmt", "skip"]), args: AttrArgs::Empty },
            marker_attr(),
            Attr { path: path(false, &["ignore"]), args: AttrArgs::Empty },
        ],
    );
    let unit = try_tag(&args, item).unwrap();
    let attrs = &unit.func.attrs;
    assert_eq!(attrs.len(), 3);
    assert_eq!(attrs[0].path.segments, vec!["rustfmt".to_string(), "skip".to_string()]);
    assert_eq!(attrs[1].path.segments, vec!["self".to_string(), "test".to_string()]);
    assert!(!attrs[1].path.leading_colon);
    assert_eq!(attrs[2].path.segments, vec!["ignore".to_string()]);
}

/// The marker rewrite applies whether or not the marker carries
/// arguments, and a qualified marker such as `tokio::test` is left
/// alone: after the rewrite no attribute is the bare ambiguous marker.
#[test]
fn marker_rewrite_is_uniform() {
    let args = vec![ident("tag3")];
    let with_args = Attr {
        path: path(false, &["test"]),
        args: AttrArgs::List { tokens: vec![ident("flavor")], raw: "flavor".to_string() },
    };
    let item = plain_fn("f", vec![with_args]);
    let unit = try_tag(&args, item).unwrap();
    assert_eq!(unit.func.attrs[0].path.segments, vec!["self".to_string(), "test".to_string()]);
    match &unit.func.attrs[0].args {
        AttrArgs::List { raw, .. } => assert_eq!(raw, "flavor"),
        _ => panic!("marker arguments were not kept"),
    }

    let qualified = Attr { path: path(false, &["tokio", "test"]), args: AttrArgs::Empty };
    let item = plain_fn("test7", vec![qualified]);
    let unit = try_tag(&args, item).unwrap();
    assert_eq!(unit.func.attrs[0].path.segments, vec!["tokio".to_string(), "test".to_string()]);
}

/// An async signature and a visibility are preserved verbatim; the
/// function itself is renamed and widened, the alias keeps the original
/// visibility.
#[test]
fn signature_and_visibility_preserved() {
    let args = vec![ident("tag3")];
    let item = FnItem {
        attrs: vec![marker_attr()],
        vis: "pub(crate)".to_string(),
        sig_head: "async".to_string(),
        name: "test6".to_string(),
        sig_tail: "()".to_string(),
        body: "{}".to_string(),
    };
    let unit = try_tag(&args, item).unwrap();
    assert_eq!(unit.func.sig_head, "async");
    assert_eq!(unit.func.vis, "pub");
    assert_eq!(unit.alias_vis, "pub(crate)");
    assert_eq!(unit.alias_name(), "test6::tag3::test");
}

/// The rendered unit for a small input, byte for byte.
#[test]
fn rendered_unit_is_exact() {
    let args = vec![ident("tag1")];
    let item = plain_fn(
        "test1",
        vec![marker_attr(), Attr { path: path(false, &["ignore"]), args: AttrArgs::Empty }],
    );
    let out = tag(&args, item);
    let expected = "#[doc(hidden)]\n\
        mod test1 {\n\
        use super::*;\n\
        mod tag1 {\n\
        use super::*;\n\
        #[self::test]\n\
        #[ignore]\n\
        pub fn test() {}\n\
        }\n\
        }\n\
        use self::test1::tag1::test as test1;\n";
    assert_eq!(out, expected);
}

/// The rendered unit is well-formed Rust: it parses as a source file
/// holding the hidden module chain and the alias declaration.
#[test]
fn rendered_unit_parses_as_rust() {
    let args = vec![ident("tag1"), ArgToken::Comma, ident("tag2")];
    let item = FnItem {
        attrs: vec![
            marker_attr(),
            Attr {
                path: path(false, &["ignore"]),
                args: AttrArgs::Empty,
            },
        ],
        vis: "pub".to_string(),
        sig_head: "async".to_string(),
        name: "it_works".to_string(),
        sig_tail: "()".to_string(),
        body: "{ assert_eq!(2 + 2, 4); }".to_string(),
    };
    let out = tag(&args, item);
    let file = syn::parse_file(&out).unwrap();
    assert_eq!(file.items.len(), 2);
    assert!(matches!(file.items[0], syn::Item::Mod(_)));
    assert!(matches!(file.items[1], syn::Item::Use(_)));
}

/// The transformation is deterministic: the same input rendered twice
/// is byte-identical.
#[test]
fn rendering_is_deterministic() {
    let make = || {
        (
            vec![ident("a"), ArgToken::Comma, ident("b")],
            plain_fn("f", vec![marker_attr()]),
        )
    };
    let (args1, item1) = make();
    let (args2, item2) = make();
    assert_eq!(tag(&args1, item1), tag(&args2, item2));
}
