//! Parsing a tag attribute's argument list into a sequence of tags.
//!
//! The argument list must be a comma-separated list of one or more
//! identifiers, with an optional trailing comma. An empty list is an
//! error; so is a key-value argument (`k = "v"`).

use vstd::prelude::*;

use crate::ast::ArgToken;
use crate::ast::is_ident;
use crate::ast::token_wf;

verus! {

/// The error conditions of the rewriting engine. Each one is terminal
/// for the annotated item being processed.
#[derive(Clone, Copy, Debug, PartialEq, Eq, Structural)]
pub enum TagError {
    /// A tag list that must not be empty was found empty.
    EmptyTagList,
    /// A tag attribute carried a key-value argument where a list of
    /// tags was expected.
    UnsupportedAttributeArgumentShape,
    /// A tag attribute's argument list was not a comma-separated list
    /// of identifiers.
    MalformedTagList,
}

/// The tags denoted by the token sequence `ts`, once at least one tag
/// has been read into `acc`.
///
/// At this point either the list ends (possibly after one trailing
/// comma), or a comma and a further identifier follow. An `=` sign
/// where a comma belongs is the key-value shape, which is unsupported.
pub open spec fn spec_parse_rest(ts: Seq<ArgToken>, acc: Seq<String>) -> Result<
    Seq<String>,
    TagError,
>
    decreases ts.len(),
{
    if ts.len() == 0 {
        Ok(acc)
    } else {
        match ts[0] {
            ArgToken::Comma => {
                if ts.len() == 1 {
                    Ok(acc)
                } else {
                    match ts[1] {
                        ArgToken::Ident(s) => spec_parse_rest(ts.skip(2), acc.push(s)),
                        _ => Err(TagError::MalformedTagList),
                    }
                }
            },
            ArgToken::EqSign => Err(TagError::UnsupportedAttributeArgumentShape),
            _ => Err(TagError::MalformedTagList),
        }
    }
}

/// The tags denoted by the token sequence `ts`: one or more identifiers
/// separated by commas, with an optional trailing comma.
pub open spec fn spec_parse_tags(ts: Seq<ArgToken>) -> Result<Seq<String>, TagError> {
    if ts.len() == 0 {
        Err(TagError::EmptyTagList)
    } else {
        match ts[0] {
            ArgToken::Ident(s) => spec_parse_rest(ts.skip(1), seq![s]),
            _ => Err(TagError::MalformedTagList),
        }
    }
}

/// Relates an executable parse result to its specification-level value.
pub open spec fn tags_match(r: Result<Vec<String>, TagError>, s: Result<Seq<String>, TagError>) -> bool {
    match (r, s) {
        (Ok(v), Ok(t)) => v@ == t,
        (Err(e), Err(f)) => e == f,
        _ => false,
    }
}

/// Parse a tag attribute's argument list.
///
/// Returns the tags in order of appearance, without deduplication.
/// Fails with [`TagError::EmptyTagList`] on an empty list, with
/// [`TagError::UnsupportedAttributeArgumentShape`] on a key-value
/// argument, and with [`TagError::MalformedTagList`] on anything else
/// that is not a comma-separated identifier list.
pub fn parse_tags(ts: &Vec<ArgToken>) -> (r: Result<Vec<String>, TagError>)
    ensures
        tags_match(r, spec_parse_tags(ts@)),
{
    if ts.len() == 0 {
        return Err(TagError::EmptyTagList);
    }
    let mut tags: Vec<String> = Vec::new();
    match &ts[0] {
        ArgToken::Ident(s) => {
            tags.push(s.clone());
        },
        _ => {
            return Err(TagError::MalformedTagList);
        },
    }
    let mut i: usize = 1;
    while i < ts.len()
        invariant
            1 <= i <= ts@.len(),
            spec_parse_tags(ts@) == spec_parse_rest(ts@.skip(i as int), tags@),
        decreases ts@.len() - i,
    {
        proof {
            assert(ts@.skip(i as int)[0] == ts@[i as int]);
        }
        match &ts[i] {
            ArgToken::Comma => {
                if i + 1 == ts.len() {
                    i = i + 1;
                } else {
                    proof {
                        assert(ts@.skip(i as int)[1] == ts@[i as int + 1]);
                    }
                    match &ts[i + 1] {
                        ArgToken::Ident(s) => {
                            proof {
                                assert(ts@.skip(i as int).skip(2) =~= ts@.skip(i as int + 2));
                            }
                            tags.push(s.clone());
                            i = i + 2;
                        },
                        _ => {
                            return Err(TagError::MalformedTagList);
                        },
                    }
                }
            },
            ArgToken::EqSign => {
                return Err(TagError::UnsupportedAttributeArgumentShape);
            },
            _ => {
                return Err(TagError::MalformedTagList);
            },
        }
    }
    proof {
        assert(ts@.skip(i as int) =~= Seq::<ArgToken>::empty());
    }
    Ok(tags)
}

/// The canonical token form of the non-empty tag suffix `rtags`: a
/// comma, an identifier, a comma, an identifier, and so on.
pub open spec fn spec_render_rest(rtags: Seq<String>) -> Seq<ArgToken>
    decreases rtags.len(),
{
    if rtags.len() == 0 {
        Seq::empty()
    } else {
        seq![ArgToken::Comma, ArgToken::Ident(rtags[0])] + spec_render_rest(rtags.skip(1))
    }
}

/// The canonical token form of the tag sequence `tags`: identifiers
/// separated by commas, without a trailing comma.
pub open spec fn spec_render_tag_list(tags: Seq<String>) -> Seq<ArgToken> {
    if tags.len() == 0 {
        Seq::empty()
    } else {
        seq![ArgToken::Ident(tags[0])] + spec_render_rest(tags.skip(1))
    }
}

/// An empty tag list is always rejected, and nothing else is: parsing
/// reports `EmptyTagList` exactly on the empty token sequence.
pub proof fn lemma_empty_list_rejected(ts: Seq<ArgToken>)
    ensures
        spec_parse_tags(ts) == Err::<Seq<String>, TagError>(TagError::EmptyTagList) <==> ts.len()
            == 0,
{
    if ts.len() > 0 {
        match ts[0] {
            ArgToken::Ident(s) => {
                lemma_rest_never_empty_err(ts.skip(1), seq![s]);
            },
            _ => {},
        }
    }
}

/// Once one tag has been read, the empty-list error can no longer arise.
proof fn lemma_rest_never_empty_err(ts: Seq<ArgToken>, acc: Seq<String>)
    ensures
        spec_parse_rest(ts, acc) != Err::<Seq<String>, TagError>(TagError::EmptyTagList),
    decreases ts.len(),
{
    if ts.len() > 1 {
        match (ts[0], ts[1]) {
            (ArgToken::Comma, ArgToken::Ident(s)) => {
                lemma_rest_never_empty_err(ts.skip(2), acc.push(s));
            },
            _ => {},
        }
    }
}

/// A key-value argument is always rejected: an `=` sign right after the
/// first identifier makes the whole list fail with
/// `UnsupportedAttributeArgumentShape`.
pub proof fn lemma_key_value_rejected(ts: Seq<ArgToken>)
    requires
        ts.len() >= 2,
        ts[0] is Ident,
        ts[1] is EqSign,
    ensures
        spec_parse_tags(ts) == Err::<Seq<String>, TagError>(
            TagError::UnsupportedAttributeArgumentShape,
        ),
{
    assert(ts.skip(1)[0] == ts[1]);
}

/// Soundness of the tag-list grammar: a successful parse means the
/// tokens were exactly a comma-separated identifier list, with or
/// without a trailing comma, and the tags are its identifiers in order.
pub proof fn lemma_parse_tags_sound(ts: Seq<ArgToken>, tags: Seq<String>)
    requires
        spec_parse_tags(ts) == Ok::<Seq<String>, TagError>(tags),
    ensures
        tags.len() >= 1,
        ts == spec_render_tag_list(tags) || ts == spec_render_tag_list(tags).push(ArgToken::Comma),
{
    match ts[0] {
        ArgToken::Ident(s) => {
            lemma_rest_sound(ts.skip(1), seq![s], tags);
            assert(tags.subrange(0, 1) == seq![s]);
            assert(tags.subrange(0, 1)[0] == tags[0]);
            assert(tags[0] == s);
            if ts.skip(1) == spec_render_rest(tags.skip(1)) {
                assert(ts =~= spec_render_tag_list(tags));
            } else {
                assert(ts =~= spec_render_tag_list(tags).push(ArgToken::Comma));
            }
        },
        _ => {},
    }
}

/// Soundness of the suffix parser: on success the remaining tokens were
/// exactly the canonical form of the tags read after `acc`.
proof fn lemma_rest_sound(ts: Seq<ArgToken>, acc: Seq<String>, tags: Seq<String>)
    requires
        spec_parse_rest(ts, acc) == Ok::<Seq<String>, TagError>(tags),
    ensures
        tags.len() >= acc.len(),
        tags.subrange(0, acc.len() as int) == acc,
        ts == spec_render_rest(tags.skip(acc.len() as int)) || ts == spec_render_rest(
            tags.skip(acc.len() as int),
        ).push(ArgToken::Comma),
    decreases ts.len(),
{
    if ts.len() == 0 {
        assert(tags == acc);
        assert(tags.subrange(0, acc.len() as int) =~= acc);
        assert(tags.skip(acc.len() as int) =~= Seq::<String>::empty());
        assert(ts =~= spec_render_rest(tags.skip(acc.len() as int)));
    } else if ts[0] is Comma && ts.len() == 1 {
        assert(tags == acc);
        assert(tags.subrange(0, acc.len() as int) =~= acc);
        assert(tags.skip(acc.len() as int) =~= Seq::<String>::empty());
        assert(ts =~= spec_render_rest(tags.skip(acc.len() as int)).push(ArgToken::Comma));
    } else {
        match (ts[0], ts[1]) {
            (ArgToken::Comma, ArgToken::Ident(s)) => {
                lemma_rest_sound(ts.skip(2), acc.push(s), tags);
                assert(acc.push(s).subrange(0, acc.len() as int) =~= acc.subrange(
                    0,
                    acc.len() as int,
                ));
                assert(tags.subrange(0, (acc.len() + 1) as int).subrange(0, acc.len() as int)
                    =~= tags.subrange(0, acc.len() as int));
                let pre = tags.subrange(0, (acc.len() + 1) as int);
                assert(pre == acc.push(s));
                assert(pre[acc.len() as int] == tags[acc.len() as int]);
                assert(pre[acc.len() as int] == s);
                assert(tags[acc.len() as int] == s);
                let rt = tags.skip(acc.len() as int);
                assert(rt[0] == s);
                assert(rt.skip(1) =~= tags.skip((acc.len() + 1) as int));
                assert(spec_render_rest(rt) == seq![ArgToken::Comma, ArgToken::Ident(s)]
                    + spec_render_rest(tags.skip((acc.len() + 1) as int)));
                if ts.skip(2) == spec_render_rest(tags.skip((acc.len() + 1) as int)) {
                    assert(ts =~= spec_render_rest(rt));
                } else {
                    assert(ts =~= spec_render_rest(rt).push(ArgToken::Comma));
                }
            },
            _ => {},
        }
    }
}

/// Completeness of the tag-list grammar: every non-empty tag sequence,
/// written in canonical form with or without a trailing comma, parses
/// back to exactly itself.
pub proof fn lemma_parse_tags_complete(tags: Seq<String>)
    requires
        tags.len() >= 1,
    ensures
        spec_parse_tags(spec_render_tag_list(tags)) == Ok::<Seq<String>, TagError>(tags),
        spec_parse_tags(spec_render_tag_list(tags).push(ArgToken::Comma)) == Ok::<
            Seq<String>,
            TagError,
        >(tags),
{
    let ts = spec_render_tag_list(tags);
    assert(ts[0] == ArgToken::Ident(tags[0]));
    lemma_rest_complete(tags.skip(1), seq![tags[0]]);
    assert(seq![tags[0]] + tags.skip(1) =~= tags);
    assert(ts.skip(1) =~= spec_render_rest(tags.skip(1)));
    let tsc = ts.push(ArgToken::Comma);
    assert(tsc[0] == ArgToken::Ident(tags[0]));
    assert(tsc.skip(1) =~= spec_render_rest(tags.skip(1)).push(ArgToken::Comma));
}

/// Completeness of the suffix parser on the canonical form.
proof fn lemma_rest_complete(rtags: Seq<String>, acc: Seq<String>)
    ensures
        spec_parse_rest(spec_render_rest(rtags), acc) == Ok::<Seq<String>, TagError>(acc + rtags),
        spec_parse_rest(spec_render_rest(rtags).push(ArgToken::Comma), acc) == Ok::<
            Seq<String>,
            TagError,
        >(acc + rtags),
    decreases rtags.len(),
{
    if rtags.len() == 0 {
        assert(acc + rtags =~= acc);
        assert(spec_render_rest(rtags) =~= Seq::<ArgToken>::empty());
        assert(spec_render_rest(rtags).push(ArgToken::Comma) =~= seq![ArgToken::Comma]);
    } else {
        let ts = spec_render_rest(rtags);
        assert(ts[0] == ArgToken::Comma);
        assert(ts[1] == ArgToken::Ident(rtags[0]));
        assert(ts.len() >= 2);
        lemma_rest_complete(rtags.skip(1), acc.push(rtags[0]));
        assert(ts.skip(2) =~= spec_render_rest(rtags.skip(1)));
        assert(acc.push(rtags[0]) + rtags.skip(1) =~= acc + rtags);
        let tsc = ts.push(ArgToken::Comma);
        assert(tsc[0] == ArgToken::Comma);
        assert(tsc[1] == ArgToken::Ident(rtags[0]));
        assert(tsc.skip(2) =~= spec_render_rest(rtags.skip(1)).push(ArgToken::Comma));
    }
}

/// Tags read from well-formed tokens are valid identifiers.
pub proof fn lemma_parse_tags_wf(ts: Seq<ArgToken>, tags: Seq<String>)
    requires
        spec_parse_tags(ts) == Ok::<Seq<String>, TagError>(tags),
        forall|i: int| 0 <= i < ts.len() ==> token_wf(#[trigger] ts[i]),
    ensures
        forall|k: int| 0 <= k < tags.len() ==> is_ident(#[trigger] tags[k]@),
{
    match ts[0] {
        ArgToken::Ident(s) => {
            lemma_rest_wf(ts.skip(1), seq![s], tags);
        },
        _ => {},
    }
}

/// Well-formedness propagation for the suffix parser.
proof fn lemma_rest_wf(ts: Seq<ArgToken>, acc: Seq<String>, tags: Seq<String>)
    requires
        spec_parse_rest(ts, acc) == Ok::<Seq<String>, TagError>(tags),
        forall|i: int| 0 <= i < ts.len() ==> token_wf(#[trigger] ts[i]),
        forall|k: int| 0 <= k < acc.len() ==> is_ident(#[trigger] acc[k]@),
    ensures
        forall|k: int| 0 <= k < tags.len() ==> is_ident(#[trigger] tags[k]@),
    decreases ts.len(),
{
    if ts.len() == 0 || (ts[0] is Comma && ts.len() == 1) {
    } else {
        match (ts[0], ts[1]) {
            (ArgToken::Comma, ArgToken::Ident(s)) => {
                assert(token_wf(ts[1]));
                assert(forall|i: int|
                    0 <= i < ts.skip(2).len() ==> token_wf(#[trigger] ts.skip(2)[i]));
                lemma_rest_wf(ts.skip(2), acc.push(s), tags);
            },
            _ => {},
        }
    }
}

} // verus!

