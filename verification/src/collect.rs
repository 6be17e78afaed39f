//! The Tag Collector: scanning a function's attribute list.
//!
//! Every attribute whose path names the tag attribute contributes its
//! argument list to the merged tag sequence, in declaration order; every
//! other attribute is a pass-through attribute and is kept, in order.

use vstd::prelude::*;

use crate::ast::ArgToken;
use crate::ast::Attr;
use crate::ast::AttrArgs;
use crate::ast::is_ident;
use crate::ast::token_wf;
use crate::tags::TagError;
use crate::tags::lemma_parse_tags_wf;
use crate::tags::parse_tags;
use crate::tags::spec_parse_tags;

verus! {

/// Whether `a` is a tag-declaration attribute: its path is exactly
/// `tag`, bare and without a root qualifier, or exactly
/// `test_tag::tag`, with or without a root qualifier.
pub open spec fn spec_is_tag_attr(a: Attr) -> bool {
    ||| (!a.path.leading_colon && a.path.segments@.len() == 1 && a.path.segments@[0]@ == "tag"@)
    ||| (a.path.segments@.len() == 2 && a.path.segments@[0]@ == "test_tag"@
        && a.path.segments@[1]@ == "tag"@)
}

/// The tokens a tag-declaration attribute hands to the tag-list parser.
///
/// A bare attribute contributes an empty list, which the shared parser
/// then rejects as empty; a key-value attribute is rejected before any
/// parsing.
pub open spec fn spec_tag_attr_tokens(a: Attr) -> Seq<ArgToken> {
    match a.args {
        AttrArgs::List { tokens, .. } => tokens@,
        _ => Seq::empty(),
    }
}

/// One collector step: what the attribute `a` at the head of the list
/// makes of the result `r` for the attributes after it.
pub open spec fn spec_collect_step(
    a: Attr,
    r: Result<(Seq<String>, Seq<Attr>), TagError>,
) -> Result<(Seq<String>, Seq<Attr>), TagError> {
    if spec_is_tag_attr(a) {
        if a.args is NameValue {
            Err(TagError::UnsupportedAttributeArgumentShape)
        } else {
            match spec_parse_tags(spec_tag_attr_tokens(a)) {
                Ok(ts) => match r {
                    Ok(tp) => Ok((ts + tp.0, tp.1)),
                    Err(e) => Err(e),
                },
                Err(e) => Err(e),
            }
        }
    } else {
        match r {
            Ok(tp) => Ok((tp.0, seq![a] + tp.1)),
            Err(e) => Err(e),
        }
    }
}

/// The collector's result on a function's attribute list: the tags of
/// every tag-declaration attribute, merged in declaration order, and
/// the pass-through attributes, in their original order. The first
/// offending attribute's error, if any.
pub open spec fn spec_collect(attrs: Seq<Attr>) -> Result<(Seq<String>, Seq<Attr>), TagError>
    decreases attrs.len(),
{
    if attrs.len() == 0 {
        Ok((Seq::empty(), Seq::empty()))
    } else {
        spec_collect_step(attrs[0], spec_collect(attrs.skip(1)))
    }
}

/// `r` with the tags `t0` and the pass-through attributes `p0` put in
/// front.
pub open spec fn spec_collect_prepend(
    t0: Seq<String>,
    p0: Seq<Attr>,
    r: Result<(Seq<String>, Seq<Attr>), TagError>,
) -> Result<(Seq<String>, Seq<Attr>), TagError> {
    match r {
        Ok(tp) => Ok((t0 + tp.0, p0 + tp.1)),
        Err(e) => Err(e),
    }
}

/// Relates an executable collector result to its specification-level
/// value.
pub open spec fn collect_match(
    r: Result<(Vec<String>, Vec<Attr>), TagError>,
    s: Result<(Seq<String>, Seq<Attr>), TagError>,
) -> bool {
    match (r, s) {
        (Ok(v), Ok(t)) => v.0@ == t.0 && v.1@ == t.1,
        (Err(e), Err(f)) => e == f,
        _ => false,
    }
}

/// Whether the attribute is a tag-declaration attribute, `#[tag]` or
/// `#[test_tag::tag]`, in any of its recognized spellings.
pub fn is_test_tag_attr(a: &Attr) -> (r: bool)
    ensures
        r == spec_is_tag_attr(*a),
{
    let n = a.path.segments.len();
    if !a.path.leading_colon && n == 1 {
        let bare = String::from_str("tag");
        a.path.segments[0] == bare
    } else if n == 2 {
        let outer = String::from_str("test_tag");
        let inner = String::from_str("tag");
        a.path.segments[0] == outer && a.path.segments[1] == inner
    } else {
        false
    }
}

/// Scan a function's attribute list.
///
/// Filters out every tag-declaration attribute and parses its tags,
/// merging them in declaration order; all remaining attributes are
/// returned unchanged, in their original order. Fails with the first
/// offending attribute's error: `UnsupportedAttributeArgumentShape` for
/// a key-value tag attribute, and the tag-list parser's error for a
/// bare or malformed one.
#[verifier::loop_isolation(false)]
pub fn parse_fn_attrs(attrs: Vec<Attr>) -> (r: Result<(Vec<String>, Vec<Attr>), TagError>)
    ensures
        collect_match(r, spec_collect(attrs@)),
{
    let ghost orig = attrs@;
    let mut rest = attrs;
    let mut tags: Vec<String> = Vec::new();
    let mut pass: Vec<Attr> = Vec::new();
    proof {
        match spec_collect(orig) {
            Ok(tp) => {
                assert(Seq::<String>::empty() + tp.0 =~= tp.0);
                assert(Seq::<Attr>::empty() + tp.1 =~= tp.1);
            },
            Err(_) => {},
        }
    }
    while rest.len() > 0
        invariant
            spec_collect(orig) == spec_collect_prepend(tags@, pass@, spec_collect(rest@)),
        decreases rest@.len(),
    {
        let ghost rest_old = rest@;
        let a = rest.remove(0);
        proof {
            assert(rest@ =~= rest_old.skip(1));
        }
        if is_test_tag_attr(&a) {
            match &a.args {
                AttrArgs::NameValue { .. } => {
                    proof {
                        assert(spec_collect(rest_old) == Err::<(Seq<String>, Seq<Attr>), TagError>(
                            TagError::UnsupportedAttributeArgumentShape,
                        ));
                        assert(spec_collect(orig) == Err::<(Seq<String>, Seq<Attr>), TagError>(
                            TagError::UnsupportedAttributeArgumentShape,
                        ));
                    }
                    return Err(TagError::UnsupportedAttributeArgumentShape);
                },
                AttrArgs::Empty => {
                    proof {
                        assert(spec_tag_attr_tokens(a) =~= Seq::<ArgToken>::empty());
                        assert(spec_collect(rest_old) == Err::<(Seq<String>, Seq<Attr>), TagError>(
                            TagError::EmptyTagList,
                        ));
                        assert(spec_collect(orig) == Err::<(Seq<String>, Seq<Attr>), TagError>(
                            TagError::EmptyTagList,
                        ));
                    }
                    return Err(TagError::EmptyTagList);
                },
                AttrArgs::List { tokens, .. } => {
                    match parse_tags(tokens) {
                        Err(e) => {
                            proof {
                                assert(spec_collect(rest_old) == Err::<
                                    (Seq<String>, Seq<Attr>),
                                    TagError,
                                >(e));
                                assert(spec_collect(orig) == Err::<
                                    (Seq<String>, Seq<Attr>),
                                    TagError,
                                >(e));
                            }
                            return Err(e);
                        },
                        Ok(mut ts) => {
                            let ghost tags_old = tags@;
                            let ghost ts_view = ts@;
                            tags.append(&mut ts);
                            proof {
                                match spec_collect(rest@) {
                                    Ok(tp) => {
                                        assert((tags_old + ts_view) + tp.0 =~= tags_old + (ts_view
                                            + tp.0));
                                    },
                                    Err(_) => {},
                                }
                            }
                        },
                    }
                },
            }
        } else {
            let ghost pass_old = pass@;
            pass.push(a);
            proof {
                match spec_collect(rest@) {
                    Ok(tp) => {
                        assert(pass_old.push(a) + tp.1 =~= pass_old + (seq![a] + tp.1));
                    },
                    Err(_) => {},
                }
            }
        }
    }
    proof {
        assert(rest@ =~= Seq::<Attr>::empty());
        match spec_collect(orig) {
            Ok(tp) => {
                assert(tags@ + Seq::<String>::empty() =~= tags@);
                assert(pass@ + Seq::<Attr>::empty() =~= pass@);
            },
            Err(_) => {},
        }
    }
    Ok((tags, pass))
}

/// The attributes of `attrs` that are not tag declarations, unchanged
/// and in their original order.
pub open spec fn spec_passthrough(attrs: Seq<Attr>) -> Seq<Attr>
    decreases attrs.len(),
{
    if attrs.len() == 0 {
        Seq::empty()
    } else if spec_is_tag_attr(attrs[0]) {
        spec_passthrough(attrs.skip(1))
    } else {
        seq![attrs[0]] + spec_passthrough(attrs.skip(1))
    }
}

/// Pass-through attributes survive the collector unchanged: on success
/// the second component is exactly the subsequence of attributes that
/// are not tag declarations, in their original order.
pub proof fn lemma_passthrough_preserved(attrs: Seq<Attr>, tags: Seq<String>, pass: Seq<Attr>)
    requires
        spec_collect(attrs) == Ok::<(Seq<String>, Seq<Attr>), TagError>((tags, pass)),
    ensures
        pass == spec_passthrough(attrs),
    decreases attrs.len(),
{
    if attrs.len() == 0 {
    } else {
        let inner = spec_collect(attrs.skip(1));
        match inner {
            Ok(tp) => {
                lemma_passthrough_preserved(attrs.skip(1), tp.0, tp.1);
            },
            Err(_) => {},
        }
    }
}

/// What one further attribute at the end of the list makes of the
/// collector's result for the attributes before it: a tag attribute
/// appends its tags at the end of the merged sequence, a pass-through
/// attribute goes to the end of the pass-through sequence, and an
/// earlier error stands.
pub open spec fn spec_collect_append(
    r: Result<(Seq<String>, Seq<Attr>), TagError>,
    a: Attr,
) -> Result<(Seq<String>, Seq<Attr>), TagError> {
    match r {
        Ok(tp) => {
            if spec_is_tag_attr(a) {
                if a.args is NameValue {
                    Err(TagError::UnsupportedAttributeArgumentShape)
                } else {
                    match spec_parse_tags(spec_tag_attr_tokens(a)) {
                        Ok(ta) => Ok((tp.0 + ta, tp.1)),
                        Err(e) => Err(e),
                    }
                }
            } else {
                Ok((tp.0, tp.1.push(a)))
            }
        },
        Err(e) => Err(e),
    }
}

/// Merging is order-preserving: a further tag attribute at the end of
/// the list contributes its tags at the end of the merged sequence, and
/// a further pass-through attribute at the end of the list goes to the
/// end of the pass-through sequence. An offending attribute at the end
/// never masks an earlier attribute's error.
pub proof fn lemma_collect_push(attrs: Seq<Attr>, a: Attr)
    ensures
        spec_collect(attrs.push(a)) == spec_collect_append(spec_collect(attrs), a),
    decreases attrs.len(),
{
    if attrs.len() == 0 {
        assert(attrs.push(a) =~= seq![a]);
        assert(seq![a].skip(1) =~= Seq::<Attr>::empty());
        assert(attrs.push(a)[0] == a);
        assert(spec_collect(attrs) == Ok::<(Seq<String>, Seq<Attr>), TagError>(
            (Seq::empty(), Seq::empty()),
        ));
        assert(attrs.push(a).skip(1).len() == 0);
        assert(spec_collect(attrs.push(a).skip(1)) == Ok::<(Seq<String>, Seq<Attr>), TagError>(
            (Seq::empty(), Seq::empty()),
        ));
        assert(spec_collect(attrs.push(a)) == spec_collect_step(
            a,
            spec_collect(attrs.push(a).skip(1)),
        ));
        if spec_is_tag_attr(a) && !(a.args is NameValue) {
            match spec_parse_tags(spec_tag_attr_tokens(a)) {
                Ok(ta) => {
                    assert(ta + Seq::<String>::empty() =~= ta);
                    assert(Seq::<String>::empty() + ta =~= ta);
                },
                Err(_) => {},
            }
        }
        if !spec_is_tag_attr(a) {
            assert(seq![a] + Seq::<Attr>::empty() =~= seq![a]);
            assert(Seq::<Attr>::empty().push(a) =~= seq![a]);
        }
        assert(spec_collect(attrs.push(a)) == spec_collect_append(spec_collect(attrs), a));
    } else {
        let h = attrs[0];
        assert(attrs.push(a)[0] == h);
        assert(attrs.push(a).skip(1) =~= attrs.skip(1).push(a));
        lemma_collect_push(attrs.skip(1), a);
        let prior_rest = spec_collect(attrs.skip(1));
        let whole_rest = spec_collect(attrs.skip(1).push(a));
        assert(spec_collect(attrs.push(a)) == spec_collect_step(h, whole_rest));
        assert(spec_collect(attrs) == spec_collect_step(h, prior_rest));
        if spec_is_tag_attr(h) && !(h.args is NameValue) {
            match spec_parse_tags(spec_tag_attr_tokens(h)) {
                Ok(th) => {
                    match prior_rest {
                        Ok(tp) => {
                            if spec_is_tag_attr(a) && !(a.args is NameValue) {
                                match spec_parse_tags(spec_tag_attr_tokens(a)) {
                                    Ok(ta) => {
                                        assert(th + (tp.0 + ta) =~= (th + tp.0) + ta);
                                    },
                                    Err(_) => {},
                                }
                            }
                        },
                        Err(_) => {},
                    }
                },
                Err(_) => {},
            }
        } else if !spec_is_tag_attr(h) {
            match prior_rest {
                Ok(tp) => {
                    if !spec_is_tag_attr(a) {
                        assert(seq![h] + tp.1.push(a) =~= (seq![h] + tp.1).push(a));
                    }
                },
                Err(_) => {},
            }
        }
        assert(spec_collect(attrs.push(a)) == spec_collect_append(spec_collect(attrs), a));
    }
}

/// A tag attribute without arguments contributes an empty list, and an
/// empty list is always rejected: however many well-formed attributes
/// stand before it, the whole scan fails with `EmptyTagList`.
pub proof fn lemma_bare_tag_attr_rejected(attrs: Seq<Attr>, a: Attr)
    requires
        spec_collect(attrs) is Ok,
        spec_is_tag_attr(a),
        a.args is Empty,
    ensures
        spec_collect(attrs.push(a)) == Err::<(Seq<String>, Seq<Attr>), TagError>(
            TagError::EmptyTagList,
        ),
{
    lemma_collect_push(attrs, a);
    assert(spec_tag_attr_tokens(a) =~= Seq::<ArgToken>::empty());
}

/// A tag attribute in key-value form is always rejected: however many
/// well-formed attributes stand before it, the whole scan fails with
/// `UnsupportedAttributeArgumentShape`.
pub proof fn lemma_key_value_tag_attr_rejected(attrs: Seq<Attr>, a: Attr)
    requires
        spec_collect(attrs) is Ok,
        spec_is_tag_attr(a),
        a.args is NameValue,
    ensures
        spec_collect(attrs.push(a)) == Err::<(Seq<String>, Seq<Attr>), TagError>(
            TagError::UnsupportedAttributeArgumentShape,
        ),
{
    lemma_collect_push(attrs, a);
}

/// Whether every identifier token in the attribute's argument list
/// holds a valid identifier. The host compiler's lexer guarantees this
/// of real input.
pub open spec fn attr_tokens_wf(a: Attr) -> bool {
    forall|j: int| 0 <= j < spec_tag_attr_tokens(a).len() ==> token_wf(
        #[trigger] spec_tag_attr_tokens(a)[j],
    )
}

/// Tags collected from well-formed attributes are valid identifiers:
/// every name of a nested module the emitter will create is one.
pub proof fn lemma_collect_tags_wf(attrs: Seq<Attr>, tags: Seq<String>, pass: Seq<Attr>)
    requires
        spec_collect(attrs) == Ok::<(Seq<String>, Seq<Attr>), TagError>((tags, pass)),
        forall|i: int| 0 <= i < attrs.len() ==> attr_tokens_wf(#[trigger] attrs[i]),
    ensures
        forall|k: int| 0 <= k < tags.len() ==> is_ident(#[trigger] tags[k]@),
    decreases attrs.len(),
{
    if attrs.len() == 0 {
    } else {
        let a = attrs[0];
        let inner = spec_collect(attrs.skip(1));
        assert(forall|i: int|
            0 <= i < attrs.skip(1).len() ==> attr_tokens_wf(#[trigger] attrs.skip(1)[i]));
        match inner {
            Ok(tp) => {
                lemma_collect_tags_wf(attrs.skip(1), tp.0, tp.1);
                if spec_is_tag_attr(a) {
                    match spec_parse_tags(spec_tag_attr_tokens(a)) {
                        Ok(ta) => {
                            assert(attr_tokens_wf(a));
                            lemma_parse_tags_wf(spec_tag_attr_tokens(a), ta);
                            assert(forall|k: int|
                                0 <= k < tags.len() ==> tags[k] == if k < ta.len() {
                                    ta[k]
                                } else {
                                    tp.0[k - ta.len()]
                                });
                        },
                        Err(_) => {},
                    }
                }
            },
            Err(_) => {},
        }
    }
}

} // verus!
