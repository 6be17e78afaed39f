//! Compile-time tagging of test functions.
//!
//! A test function can be associated with one or more textual tags. The
//! engine in this crate rewrites such a function into a chain of nested
//! modules, one per tag, so that the tags become path segments of the
//! test's fully qualified name and a name-based test filter can select
//! tests by tag.

use vstd::prelude::*;

pub mod ast;
pub mod collect;
pub mod emit;
pub mod harness;
pub mod render;
pub mod tags;

use crate::ast::ArgToken;
use crate::ast::FnItem;
use crate::collect::parse_fn_attrs;
use crate::collect::spec_collect;
use crate::emit::RewrittenUnit;
use crate::emit::emit_unit;
use crate::emit::spec_alias_path;
use crate::emit::spec_attrs_rewritten;
use crate::emit::spec_join_path;
use crate::render::lemma_render_rewritten;
use crate::render::render_error;
use crate::render::render_unit;
use crate::render::seq_views;
use crate::render::spec_opt_sp;
use crate::render::spec_render_attrs_rewritten;
use crate::render::spec_render_error;
use crate::render::spec_render_mods;
use crate::tags::TagError;
use crate::tags::lemma_parse_tags_sound;
use crate::tags::parse_tags;
use crate::tags::spec_parse_tags;

verus! {

/// Rewrite one tagged function into its nested form.
///
/// `args` is the argument list handed directly to the tag attribute,
/// tokenized; `item` is the annotated function, still carrying every
/// further attribute. On success the unit holds the merged tag sequence
/// (direct arguments first, then each tag attribute's tags in
/// declaration order), the function renamed to `test` with the
/// marker-rewritten pass-through attributes, and the alias data. On
/// failure it returns the first error: the direct list's, then the
/// first offending attribute's.
pub fn try_tag(args: &Vec<ArgToken>, item: FnItem) -> (r: Result<RewrittenUnit, TagError>)
    ensures
        ({
            let direct = spec_parse_tags(args@);
            let collected = spec_collect(item.attrs@);
            match r {
                Ok(u) => {
                    &&& direct is Ok
                    &&& collected is Ok
                    &&& u.tags@ == direct->Ok_0 + collected->Ok_0.0
                    &&& u.outer == item.name
                    &&& u.alias_vis == item.vis
                    &&& u.func.name@ == "test"@
                    &&& u.func.vis@ == "pub"@
                    &&& u.func.sig_head == item.sig_head
                    &&& u.func.sig_tail == item.sig_tail
                    &&& u.func.body == item.body
                    &&& spec_attrs_rewritten(collected->Ok_0.1, u.func.attrs@)
                },
                Err(e) => {
                    if direct is Err {
                        e == direct->Err_0
                    } else {
                        &&& collected is Err
                        &&& e == collected->Err_0
                    }
                },
            }
        }),
{
    let mut tags = match parse_tags(args) {
        Ok(t) => t,
        Err(e) => {
            return Err(e);
        },
    };
    proof {
        lemma_parse_tags_sound(args@, tags@);
    }
    let FnItem { attrs, vis, sig_head, name, sig_tail, body } = item;
    let (more, passthrough) = match parse_fn_attrs(attrs) {
        Ok(p) => p,
        Err(e) => {
            return Err(e);
        },
    };
    let mut more = more;
    tags.append(&mut more);
    let retained = FnItem { attrs: passthrough, vis, sig_head, name, sig_tail, body };
    Ok(emit_unit(tags, retained))
}

/// The exact text the transformation produces for the given input:
/// either the rewritten unit, or an error unit carrying the diagnostic
/// of the first error found.
pub open spec fn spec_tag_output(args: Seq<ArgToken>, item: FnItem) -> Seq<char> {
    let direct = spec_parse_tags(args);
    let collected = spec_collect(item.attrs@);
    if direct is Err {
        spec_render_error(direct->Err_0)
    } else if collected is Err {
        spec_render_error(collected->Err_0)
    } else {
        let tags = seq_views(direct->Ok_0 + collected->Ok_0.0);
        let names = seq![item.name@] + tags;
        let func_text = spec_render_attrs_rewritten(collected->Ok_0.1) + spec_opt_sp("pub"@)
            + spec_opt_sp(item.sig_head@) + "fn "@ + "test"@ + item.sig_tail@ + " "@ + item.body@
            + "\n"@;
        "#[doc(hidden)]\n"@ + spec_render_mods(names, func_text) + spec_opt_sp(item.vis@)
            + "use self::"@ + spec_join_path(names.push("test"@)) + " as "@ + item.name@ + ";\n"@
    }
}

/// The whole transformation for one annotated function: collect the
/// tags, build the nested unit, and render it; on an error, render an
/// error unit in its place so that the surrounding compilation still
/// reports the failure.
pub fn tag(args: &Vec<ArgToken>, item: FnItem) -> (out: String)
    ensures
        out@ == spec_tag_output(args@, item),
{
    let ghost direct = spec_parse_tags(args@);
    let ghost collected = spec_collect(item.attrs@);
    match try_tag(args, item) {
        Ok(u) => {
            let r = render_unit(&u);
            proof {
                lemma_render_rewritten(collected->Ok_0.1, u.func.attrs@);
                assert(u.tags.deep_view() =~= seq_views(u.tags@));
                assert(seq![u.outer@] + u.tags.deep_view() =~= seq![item.name@] + seq_views(
                    direct->Ok_0 + collected->Ok_0.0,
                ));
                assert(spec_alias_path(u) =~= (seq![item.name@] + seq_views(
                    direct->Ok_0 + collected->Ok_0.0,
                )).push("test"@));
                assert(r@ =~= spec_tag_output(args@, item));
            }
            r
        },
        Err(e) => render_error(&e),
    }
}

} // verus!
