//! Rendering the rewritten unit as source text.
//!
//! The transformation is pure: for one rewritten unit the rendered text
//! is always the same sequence of characters, given here by
//! specification functions that the executable renderer is proved to
//! follow exactly.

use vstd::prelude::*;

use crate::ast::Attr;
use crate::ast::AttrArgs;
use crate::ast::AttrPath;
use crate::emit::RewrittenUnit;
use crate::emit::lemma_join_push;
use crate::emit::spec_alias_path;
use crate::emit::spec_attr_rewrite;
use crate::emit::spec_attrs_rewritten;
use crate::emit::spec_is_marker;
use crate::emit::spec_join_path;
use crate::tags::TagError;

verus! {

/// The views of the strings in `ss`, in order.
pub open spec fn seq_views(ss: Seq<String>) -> Seq<Seq<char>> {
    Seq::new(ss.len(), |i: int| ss[i]@)
}

/// The text of an attribute path: a root qualifier if present, then the
/// segments joined by the namespace separator.
pub open spec fn spec_render_path(p: AttrPath) -> Seq<char> {
    if p.leading_colon {
        "::"@ + spec_join_path(p.segments.deep_view())
    } else {
        spec_join_path(p.segments.deep_view())
    }
}

/// The text of an attribute's arguments: nothing for a bare attribute,
/// the verbatim list in parentheses, or the verbatim key-value form.
pub open spec fn spec_render_args(args: AttrArgs) -> Seq<char> {
    match args {
        AttrArgs::Empty => Seq::empty(),
        AttrArgs::List { raw, .. } => "("@ + raw@ + ")"@,
        AttrArgs::NameValue { raw } => " = "@ + raw@,
    }
}

/// The text of one attribute, on a line of its own.
pub open spec fn spec_render_attr(a: Attr) -> Seq<char> {
    "#["@ + spec_render_path(a.path) + spec_render_args(a.args) + "]\n"@
}

/// The text of an attribute list, one attribute per line, in order.
pub open spec fn spec_render_attrs(attrs: Seq<Attr>) -> Seq<char>
    decreases attrs.len(),
{
    if attrs.len() == 0 {
        Seq::empty()
    } else {
        spec_render_attr(attrs[0]) + spec_render_attrs(attrs.skip(1))
    }
}

/// Rendering one more attribute appends its line.
pub proof fn lemma_render_attrs_push(attrs: Seq<Attr>, a: Attr)
    ensures
        spec_render_attrs(attrs.push(a)) == spec_render_attrs(attrs) + spec_render_attr(a),
    decreases attrs.len(),
{
    if attrs.len() == 0 {
        assert(attrs.push(a)[0] == a);
        assert(attrs.push(a).skip(1) =~= Seq::<Attr>::empty());
        assert(spec_render_attrs(attrs.push(a).skip(1)) == Seq::<char>::empty());
        assert(spec_render_attr(a) + Seq::<char>::empty() =~= spec_render_attr(a));
        assert(Seq::<char>::empty() + spec_render_attr(a) =~= spec_render_attr(a));
    } else {
        assert(attrs.push(a)[0] == attrs[0]);
        assert(attrs.push(a).skip(1) =~= attrs.skip(1).push(a));
        lemma_render_attrs_push(attrs.skip(1), a);
        assert(spec_render_attr(attrs[0]) + (spec_render_attrs(attrs.skip(1))
            + spec_render_attr(a)) =~= (spec_render_attr(attrs[0]) + spec_render_attrs(
            attrs.skip(1),
        )) + spec_render_attr(a));
    }
}

/// The segments joined by the namespace separator, e.g. `a::b::c`.
#[verifier::loop_isolation(false)]
pub fn join_segments(segs: &Vec<String>) -> (r: String)
    ensures
        r@ == spec_join_path(segs.deep_view()),
{
    let ghost deep = segs.deep_view();
    proof {
        assert(deep.len() == segs@.len());
        assert(forall|i: int| 0 <= i < deep.len() ==> #[trigger] deep[i] == segs@[i]@);
    }
    let mut r = String::new();
    let mut k: usize = 0;
    while k < segs.len()
        invariant
            k <= segs@.len(),
            r@ == spec_join_path(deep.take(k as int)),
        decreases segs@.len() - k,
    {
        if k == 0 {
            proof {
                assert(deep.take(1) =~= seq![deep[0]]);
                assert(spec_join_path(seq![deep[0]]) == deep[0]);
            }
            r.append(segs[k].as_str());
        } else {
            proof {
                lemma_join_push(deep.take(k as int), deep[k as int]);
                assert(deep.take(k as int).push(deep[k as int]) =~= deep.take(k as int + 1));
            }
            r.append("::");
            r.append(segs[k].as_str());
        }
        k = k + 1;
    }
    proof {
        assert(deep.take(k as int) =~= deep);
    }
    r
}

/// Render one attribute, followed by a line break.
pub fn render_attr(a: &Attr) -> (r: String)
    ensures
        r@ == spec_render_attr(*a),
{
    let mut r = String::from_str("#[");
    if a.path.leading_colon {
        r.append("::");
    }
    let joined = join_segments(&a.path.segments);
    r.append(joined.as_str());
    match &a.args {
        AttrArgs::Empty => {
            proof {
                assert(spec_render_args(a.args) == Seq::<char>::empty());
                assert(r@ + Seq::<char>::empty() =~= r@);
            }
        },
        AttrArgs::List { raw, .. } => {
            r.append("(");
            r.append(raw.as_str());
            r.append(")");
        },
        AttrArgs::NameValue { raw } => {
            r.append(" = ");
            r.append(raw.as_str());
        },
    }
    r.append("]\n");
    proof {
        assert(r@ =~= spec_render_attr(*a));
    }
    r
}

/// Render an attribute list, one attribute per line, in order.
#[verifier::loop_isolation(false)]
pub fn render_attrs(attrs: &Vec<Attr>) -> (r: String)
    ensures
        r@ == spec_render_attrs(attrs@),
{
    let mut r = String::new();
    let mut k: usize = 0;
    proof {
        assert(attrs@.take(0) =~= Seq::<Attr>::empty());
    }
    while k < attrs.len()
        invariant
            k <= attrs@.len(),
            r@ == spec_render_attrs(attrs@.take(k as int)),
        decreases attrs@.len() - k,
    {
        proof {
            lemma_render_attrs_push(attrs@.take(k as int), attrs@[k as int]);
            assert(attrs@.take(k as int).push(attrs@[k as int]) =~= attrs@.take(k as int + 1));
        }
        let line = render_attr(&attrs[k]);
        r.append(line.as_str());
        k = k + 1;
    }
    proof {
        assert(attrs@.take(k as int) =~= attrs@);
    }
    r
}

/// `s` followed by one space, or nothing at all if `s` is empty; for
/// optional signature parts such as the visibility.
pub open spec fn spec_opt_sp(s: Seq<char>) -> Seq<char> {
    if s.len() == 0 {
        Seq::empty()
    } else {
        s + " "@
    }
}

/// Append `s` and a space to `out`, or nothing if `s` is empty.
fn append_opt_sp(out: &mut String, s: &String)
    ensures
        final(out)@ == old(out)@ + spec_opt_sp(s@),
{
    if s.as_str().unicode_len() > 0 {
        out.append(s.as_str());
        out.append(" ");
    } else {
        proof {
            assert(old(out)@ + Seq::<char>::empty() =~= old(out)@);
        }
    }
}

/// The text of the function placed in the innermost module: its
/// attributes, each on a line, then visibility, qualifiers, `fn`, name,
/// the rest of the signature, and the body.
pub open spec fn spec_render_fn(f: crate::ast::FnItem) -> Seq<char> {
    spec_render_attrs(f.attrs@) + spec_opt_sp(f.vis@) + spec_opt_sp(f.sig_head@) + "fn "@ + f.name@
        + f.sig_tail@ + " "@ + f.body@ + "\n"@
}

/// Render the function placed in the innermost module.
pub fn render_fn(f: &crate::ast::FnItem) -> (r: String)
    ensures
        r@ == spec_render_fn(*f),
{
    let mut r = render_attrs(&f.attrs);
    append_opt_sp(&mut r, &f.vis);
    append_opt_sp(&mut r, &f.sig_head);
    r.append("fn ");
    r.append(f.name.as_str());
    r.append(f.sig_tail.as_str());
    r.append(" ");
    r.append(f.body.as_str());
    r.append("\n");
    r
}

/// The text of one module named `name` wrapped around `inner`. Each
/// module imports everything visible in its parent scope, so that the
/// relocated function still resolves the names it used before.
pub open spec fn spec_wrap_mod(name: Seq<char>, inner: Seq<char>) -> Seq<char> {
    "mod "@ + name + " {\n"@ + "use super::*;\n"@ + inner + "}\n"@
}

/// Wrap `inner` in a module named `name`.
fn wrap_mod(name: &String, inner: &String) -> (r: String)
    ensures
        r@ == spec_wrap_mod(name@, inner@),
{
    let mut r = String::from_str("mod ");
    r.append(name.as_str());
    r.append(" {\n");
    r.append("use super::*;\n");
    r.append(inner.as_str());
    r.append("}\n");
    r
}

/// The text of the chain of nested modules named `names`, outermost
/// first, with `inner` in the innermost one.
pub open spec fn spec_render_mods(names: Seq<Seq<char>>, inner: Seq<char>) -> Seq<char>
    decreases names.len(),
{
    if names.len() == 0 {
        inner
    } else {
        spec_wrap_mod(names[0], spec_render_mods(names.skip(1), inner))
    }
}

/// Render the chain of nested modules, innermost outward.
#[verifier::loop_isolation(false)]
pub fn render_mods(names: &Vec<String>, inner: String) -> (r: String)
    ensures
        r@ == spec_render_mods(names.deep_view(), inner@),
{
    let ghost deep = names.deep_view();
    proof {
        assert(deep.len() == names@.len());
        assert(forall|i: int| 0 <= i < deep.len() ==> #[trigger] deep[i] == names@[i]@);
        assert(deep.skip(names@.len() as int) =~= Seq::<Seq<char>>::empty());
    }
    let mut out = inner;
    let mut k: usize = names.len();
    while k > 0
        invariant
            k <= names@.len(),
            out@ == spec_render_mods(deep.skip(k as int), inner@),
        decreases k,
    {
        k = k - 1;
        proof {
            assert(deep.skip(k as int)[0] == deep[k as int]);
            assert(deep.skip(k as int).skip(1) =~= deep.skip(k as int + 1));
        }
        out = wrap_mod(&names[k], &out);
    }
    proof {
        assert(deep.skip(0) =~= deep);
    }
    out
}

/// The diagnostic text of each error condition.
pub open spec fn spec_error_message(e: TagError) -> Seq<char> {
    match e {
        TagError::EmptyTagList => "at least one tag is required: #[test_tag::tag(<tags...>)]"@,
        TagError::UnsupportedAttributeArgumentShape => "encountered unexpected argument to `tag` attribute; expected list of tags"@,
        TagError::MalformedTagList => "expected a comma-separated list of tag identifiers"@,
    }
}

/// The diagnostic text of the error condition `e`.
pub fn error_message(e: &TagError) -> (r: String)
    ensures
        r@ == spec_error_message(*e),
{
    match e {
        TagError::EmptyTagList => String::from_str(
            "at least one tag is required: #[test_tag::tag(<tags...>)]",
        ),
        TagError::UnsupportedAttributeArgumentShape => String::from_str(
            "encountered unexpected argument to `tag` attribute; expected list of tags",
        ),
        TagError::MalformedTagList => String::from_str(
            "expected a comma-separated list of tag identifiers",
        ),
    }
}

/// The error unit emitted in place of the rewritten one, so that the
/// surrounding compilation still reports the failure precisely.
pub open spec fn spec_render_error(e: TagError) -> Seq<char> {
    "compile_error! { \""@ + spec_error_message(e) + "\" }\n"@
}

/// Render the error unit for the error condition `e`.
pub fn render_error(e: &TagError) -> (r: String)
    ensures
        r@ == spec_render_error(*e),
{
    let mut r = String::from_str("compile_error! { \"");
    let msg = error_message(e);
    r.append(msg.as_str());
    r.append("\" }\n");
    r
}

/// The text of one pass-through attribute as it stands on the emitted
/// function: a bare `test` marker is shown with the current-namespace
/// qualifier, every other attribute as it was.
pub open spec fn spec_render_attr_rewritten(a: Attr) -> Seq<char> {
    if spec_is_marker(a) {
        "#["@ + ("self"@ + "::"@ + a.path.segments@[0]@) + spec_render_args(a.args) + "]\n"@
    } else {
        spec_render_attr(a)
    }
}

/// The text of the pass-through attribute list as it stands on the
/// emitted function.
pub open spec fn spec_render_attrs_rewritten(attrs: Seq<Attr>) -> Seq<char>
    decreases attrs.len(),
{
    if attrs.len() == 0 {
        Seq::empty()
    } else {
        spec_render_attr_rewritten(attrs[0]) + spec_render_attrs_rewritten(attrs.skip(1))
    }
}

/// The emitted attribute list renders to exactly the marker-rewritten
/// text of the pass-through list.
pub proof fn lemma_render_rewritten(from: Seq<Attr>, to: Seq<Attr>)
    requires
        spec_attrs_rewritten(from, to),
    ensures
        spec_render_attrs(to) == spec_render_attrs_rewritten(from),
    decreases from.len(),
{
    if from.len() == 0 {
    } else {
        assert(spec_attr_rewrite(from[0], to[0]));
        assert forall|i: int| 0 <= i < from.skip(1).len() implies spec_attr_rewrite(
            from.skip(1)[i],
            #[trigger] to.skip(1)[i],
        ) by {
            assert(from.skip(1)[i] == from[i + 1]);
            assert(to.skip(1)[i] == to[i + 1]);
            assert(spec_attr_rewrite(from[i + 1], to[i + 1]));
        }
        lemma_render_rewritten(from.skip(1), to.skip(1));
        if spec_is_marker(from[0]) {
            let b = to[0];
            let d = b.path.segments.deep_view();
            assert(d.len() == 2);
            assert(d[0] == b.path.segments@[0]@);
            assert(d[1] == b.path.segments@[1]@);
            assert(d.skip(1) =~= seq![d[1]]);
            assert(spec_join_path(seq![d[1]]) == d[1]);
            assert(spec_join_path(d) == d[0] + "::"@ + d[1]);
            assert(d[0] + "::"@ + d[1] =~= "self"@ + "::"@ + from[0].path.segments@[0]@);
            assert(spec_render_attr(to[0]) == spec_render_attr_rewritten(from[0]));
        } else {
            assert(to[0] == from[0]);
        }
    }
}

/// The text of the alias declaration: the original visibility, an alias
/// under the original name, bound to the leaf function through all
/// nested modules.
pub open spec fn spec_render_alias(u: RewrittenUnit) -> Seq<char> {
    spec_opt_sp(u.alias_vis@) + "use self::"@ + spec_join_path(spec_alias_path(u)) + " as "@
        + u.outer@ + ";\n"@
}

/// The text of the whole rewritten unit: the nested modules, hidden
/// from generated documentation, and the alias declaration at the end.
pub open spec fn spec_render_unit(u: RewrittenUnit) -> Seq<char> {
    "#[doc(hidden)]\n"@ + spec_render_mods(
        seq![u.outer@] + u.tags.deep_view(),
        spec_render_fn(u.func),
    ) + spec_render_alias(u)
}

/// Render the whole rewritten unit.
#[verifier::loop_isolation(false)]
pub fn render_unit(u: &RewrittenUnit) -> (r: String)
    ensures
        r@ == spec_render_unit(*u),
{
    let ghost deep = u.tags.deep_view();
    proof {
        assert(deep.len() == u.tags@.len());
        assert(forall|i: int| 0 <= i < deep.len() ==> #[trigger] deep[i] == u.tags@[i]@);
    }
    let fn_text = render_fn(&u.func);
    let mut names: Vec<String> = Vec::new();
    names.push(u.outer.clone());
    let mut k: usize = 0;
    while k < u.tags.len()
        invariant
            k <= u.tags@.len(),
            names@.len() == 1 + k,
            names@[0] == u.outer,
            forall|i: int| 1 <= i < names@.len() ==> names@[i] == u.tags@[i - 1],
        decreases u.tags@.len() - k,
    {
        names.push(u.tags[k].clone());
        k = k + 1;
    }
    proof {
        assert(names.deep_view() =~= seq![u.outer@] + deep);
    }
    let nested = render_mods(&names, fn_text);
    let mut r = String::from_str("#[doc(hidden)]\n");
    r.append(nested.as_str());
    append_opt_sp(&mut r, &u.alias_vis);
    r.append("use self::");
    let an = u.alias_name();
    r.append(an.as_str());
    r.append(" as ");
    r.append(u.outer.as_str());
    r.append(";\n");
    proof {
        assert(r@ =~= spec_render_unit(*u));
    }
    r
}

} // verus!
