//! The Nesting Emitter: building the rewritten compile unit.
//!
//! Given the merged tag sequence and the retained function, the emitter
//! rewrites a bare `test` marker attribute so that it resolves relative
//! to the new nesting, renames the function to the canonical leaf name
//! `test`, and records one nested module per tag, outermost first,
//! together with a top-level alias under the function's original name.

use vstd::prelude::*;

use crate::ast::Attr;
use crate::ast::FnItem;

verus! {

/// Whether `a` is the bare "is-a-test" marker attribute: its path is
/// the single unqualified identifier `test`.
pub open spec fn spec_is_marker(a: Attr) -> bool {
    &&& !a.path.leading_colon
    &&& a.path.segments@.len() == 1
    &&& a.path.segments@[0]@ == "test"@
}

/// Relates a marker attribute to its rewritten form: the path gains a
/// leading `self` qualifier, so that the marker resolves relative to
/// the module the function now lives in; the arguments, if any, are
/// unchanged.
pub open spec fn spec_marker_rewritten(a: Attr, b: Attr) -> bool {
    &&& !b.path.leading_colon
    &&& b.path.segments@.len() == 2
    &&& b.path.segments@[0]@ == "self"@
    &&& b.path.segments@[1] == a.path.segments@[0]
    &&& b.args == a.args
}

/// Relates one attribute to its form on the emitted function: a bare
/// marker is rewritten, every other attribute is kept unchanged.
pub open spec fn spec_attr_rewrite(a: Attr, b: Attr) -> bool {
    if spec_is_marker(a) {
        spec_marker_rewritten(a, b)
    } else {
        b == a
    }
}

/// Relates the pass-through attribute list to the emitted function's
/// attribute list: same length, element-wise marker rewrite.
pub open spec fn spec_attrs_rewritten(from: Seq<Attr>, to: Seq<Attr>) -> bool {
    &&& to.len() == from.len()
    &&& forall|i: int| 0 <= i < from.len() ==> spec_attr_rewrite(from[i], #[trigger] to[i])
}

/// The rewritten compile unit: a module named after the original
/// function, one nested module per tag (outermost first), the renamed
/// function in the innermost module, and a top-level alias bound to the
/// leaf function under the original name and visibility.
#[derive(Debug)]
pub struct RewrittenUnit {
    /// The outermost module's name: the original function's name.
    pub outer: String,
    /// The nested tag modules' names, outermost to innermost.
    pub tags: Vec<String>,
    /// The function placed in the innermost module: renamed to `test`,
    /// made `pub` so that it is reachable from the enclosing modules,
    /// carrying the marker-rewritten pass-through attributes.
    pub func: FnItem,
    /// The alias declaration's visibility: the original function's.
    pub alias_vis: String,
}

/// Whether the attribute is the bare `test` marker.
pub fn is_marker_attr(a: &Attr) -> (r: bool)
    ensures
        r == spec_is_marker(*a),
{
    if !a.path.leading_colon && a.path.segments.len() == 1 {
        let marker = String::from_str("test");
        a.path.segments[0] == marker
    } else {
        false
    }
}

/// Rewrite one attribute for the emitted function: a bare `test` marker
/// has its path prefixed with the current-namespace qualifier `self`;
/// anything else is returned unchanged.
pub fn rewrite_marker_attr(a: Attr) -> (b: Attr)
    ensures
        spec_attr_rewrite(a, b),
{
    if is_marker_attr(&a) {
        let ghost seg_old = a.path.segments@;
        let Attr { mut path, args } = a;
        let q = String::from_str("self");
        path.segments.insert(0, q);
        let b = Attr { path, args };
        proof {
            assert(b.path.segments@ =~= seq![q] + seg_old);
        }
        b
    } else {
        a
    }
}

/// Build the rewritten unit from the merged tag sequence and the
/// retained function.
///
/// The retained function's attribute list must already be the
/// collector's pass-through list. The function is renamed to the
/// canonical leaf name `test` and widened to `pub`; its original name
/// becomes the outermost module's name and the alias's name, and its
/// original visibility becomes the alias's visibility.
#[verifier::loop_isolation(false)]
pub fn emit_unit(tags: Vec<String>, retained: FnItem) -> (u: RewrittenUnit)
    requires
        tags@.len() >= 1,
    ensures
        u.outer == retained.name,
        u.tags == tags,
        u.alias_vis == retained.vis,
        u.func.name@ == "test"@,
        u.func.vis@ == "pub"@,
        u.func.sig_head == retained.sig_head,
        u.func.sig_tail == retained.sig_tail,
        u.func.body == retained.body,
        spec_attrs_rewritten(retained.attrs@, u.func.attrs@),
{
    let FnItem { attrs, vis, sig_head, name, sig_tail, body } = retained;
    let ghost attrs_old = attrs@;
    let mut rest = attrs;
    let mut rewritten: Vec<Attr> = Vec::new();
    while rest.len() > 0
        invariant
            rewritten@.len() + rest@.len() == attrs_old.len(),
            rest@ == attrs_old.skip(rewritten@.len() as int),
            forall|i: int|
                0 <= i < rewritten@.len() ==> spec_attr_rewrite(
                    attrs_old[i],
                    #[trigger] rewritten@[i],
                ),
        decreases rest@.len(),
    {
        let ghost done = rewritten@.len() as int;
        let a = rest.remove(0);
        proof {
            assert(a == attrs_old[done]);
            assert(rest@ =~= attrs_old.skip(done + 1));
        }
        let b = rewrite_marker_attr(a);
        rewritten.push(b);
    }
    RewrittenUnit {
        outer: name,
        tags,
        func: FnItem {
            attrs: rewritten,
            vis: String::from_str("pub"),
            sig_head,
            name: String::from_str("test"),
            sig_tail,
            body,
        },
        alias_vis: vis,
    }
}

/// The path segments joined by the namespace separator `::`.
pub open spec fn spec_join_path(segs: Seq<Seq<char>>) -> Seq<char>
    decreases segs.len(),
{
    if segs.len() == 0 {
        Seq::empty()
    } else if segs.len() == 1 {
        segs[0]
    } else {
        segs[0] + "::"@ + spec_join_path(segs.skip(1))
    }
}

/// Joining one more segment appends a separator and the segment.
pub proof fn lemma_join_push(segs: Seq<Seq<char>>, x: Seq<char>)
    ensures
        segs.len() == 0 ==> spec_join_path(segs.push(x)) == x,
        segs.len() >= 1 ==> spec_join_path(segs.push(x)) == spec_join_path(segs) + "::"@ + x,
    decreases segs.len(),
{
    let sep = "::"@;
    if segs.len() == 0 {
        assert(segs.push(x)[0] == x);
    } else if segs.len() == 1 {
        assert(segs.push(x)[0] == segs[0]);
        assert(segs.push(x).skip(1) =~= seq![x]);
        assert(spec_join_path(seq![x]) == x);
    } else {
        assert(segs.push(x)[0] == segs[0]);
        assert(segs.push(x).skip(1) =~= segs.skip(1).push(x));
        lemma_join_push(segs.skip(1), x);
        assert(segs[0] + sep + (spec_join_path(segs.skip(1)) + sep + x) =~= (segs[0] + sep
            + spec_join_path(segs.skip(1))) + sep + x);
    }
}

/// The text `segs[0]::segs[1]:: ... ::segs[i-1]::`: what stands before
/// the `i`-th segment in the joined path.
pub open spec fn spec_joined_prefix(segs: Seq<Seq<char>>, i: int) -> Seq<char>
    decreases i,
{
    if i <= 0 {
        Seq::empty()
    } else {
        spec_joined_prefix(segs, i - 1) + segs[i - 1] + "::"@
    }
}

/// The joined path splits at any segment: everything before it, then
/// the join of the rest.
pub proof fn lemma_join_split(segs: Seq<Seq<char>>, i: int)
    requires
        0 <= i < segs.len(),
    ensures
        spec_join_path(segs) == spec_joined_prefix(segs, i) + spec_join_path(segs.skip(i)),
    decreases i,
{
    if i == 0 {
        assert(segs.skip(0) =~= segs);
        assert(spec_joined_prefix(segs, 0) + spec_join_path(segs) =~= spec_join_path(segs));
    } else {
        lemma_join_split(segs, i - 1);
        let s1 = segs.skip(i - 1);
        assert(s1[0] == segs[i - 1]);
        assert(s1.skip(1) =~= segs.skip(i));
        assert(spec_join_path(s1) == segs[i - 1] + "::"@ + spec_join_path(segs.skip(i)));
        assert(spec_joined_prefix(segs, i - 1) + (segs[i - 1] + "::"@ + spec_join_path(
            segs.skip(i),
        )) =~= (spec_joined_prefix(segs, i - 1) + segs[i - 1] + "::"@) + spec_join_path(
            segs.skip(i),
        ));
    }
}

/// Whether `needle` occurs in `hay` as a contiguous run.
pub open spec fn has_substring(hay: Seq<char>, needle: Seq<char>) -> bool {
    exists|j: int|
        0 <= j && j + needle.len() <= hay.len() && #[trigger] hay.subrange(j, j + needle.len())
            == needle
}

/// An inner segment of a joined path is surrounded by separators: the
/// text `:` segment `:` occurs in the joined path.
pub proof fn lemma_inner_segment_surrounded(segs: Seq<Seq<char>>, i: int)
    requires
        1 <= i,
        i + 1 < segs.len(),
    ensures
        has_substring(spec_join_path(segs), ":"@ + segs[i] + ":"@),
{
    reveal_strlit("::");
    reveal_strlit(":");
    lemma_join_split(segs, i);
    let a = spec_joined_prefix(segs, i);
    let b = spec_join_path(segs.skip(i));
    let hay = spec_join_path(segs);
    assert(hay == a + b);
    assert(a == spec_joined_prefix(segs, i - 1) + segs[i - 1] + "::"@);
    assert(a[a.len() - 1] == ':');
    let si = segs.skip(i);
    assert(si.len() >= 2);
    assert(si[0] == segs[i]);
    assert(b == segs[i] + "::"@ + spec_join_path(si.skip(1)));
    assert(forall|t: int| 0 <= t < segs[i].len() ==> b[t] == segs[i][t]);
    assert(b[segs[i].len() as int] == ':');
    let needle = ":"@ + segs[i] + ":"@;
    let j = a.len() - 1;
    assert(needle.len() == segs[i].len() + 2);
    assert(j + needle.len() <= hay.len());
    assert forall|t: int| 0 <= t < needle.len() implies hay.subrange(j, j + needle.len())[t]
        == needle[t] by {
        assert(hay.subrange(j, j + needle.len())[t] == hay[j + t]);
        if t == 0 {
            assert(hay[j] == a[a.len() - 1]);
            assert(needle[0] == ':');
        } else {
            assert(hay[j + t] == b[t - 1]);
            if t < needle.len() - 1 {
                assert(needle[t] == segs[i][t - 1]);
                assert(b[t - 1] == segs[i][t - 1]);
            } else {
                assert(needle[t] == ':');
                assert(b[t - 1] == ':');
            }
        }
    }
    assert(hay.subrange(j, j + needle.len()) =~= needle);
}

/// The full path of the alias's target: the original function's name,
/// the tags in merged order, and the canonical leaf name `test`.
pub open spec fn spec_alias_path(u: RewrittenUnit) -> Seq<Seq<char>> {
    seq![u.outer@] + u.tags.deep_view() + seq!["test"@]
}

impl RewrittenUnit {
    /// The fully qualified name the test harness sees: the original
    /// function's name, each tag in merged order, and `test`, joined by
    /// the namespace separator.
    #[verifier::loop_isolation(false)]
    pub fn alias_name(&self) -> (r: String)
        ensures
            r@ == spec_join_path(spec_alias_path(*self)),
    {
        let ghost deep = self.tags.deep_view();
        let mut r = self.outer.clone();
        proof {
            assert(deep.len() == self.tags@.len());
            assert(forall|i: int| 0 <= i < deep.len() ==> #[trigger] deep[i] == self.tags@[i]@);
            assert(seq![self.outer@] + deep.take(0) =~= seq![self.outer@]);
        }
        let mut k: usize = 0;
        while k < self.tags.len()
            invariant
                k <= self.tags@.len(),
                r@ == spec_join_path(seq![self.outer@] + deep.take(k as int)),
            decreases self.tags@.len() - k,
        {
            proof {
                let prefix = seq![self.outer@] + deep.take(k as int);
                lemma_join_push(prefix, deep[k as int]);
                assert(prefix.push(deep[k as int]) =~= seq![self.outer@] + deep.take(
                    k as int + 1,
                ));
                assert(deep[k as int] == self.tags@[k as int]@);
            }
            r.append("::");
            r.append(self.tags[k].as_str());
            k = k + 1;
        }
        proof {
            assert(deep.take(k as int) =~= deep);
            let prefix = seq![self.outer@] + deep;
            lemma_join_push(prefix, "test"@);
            assert(prefix.push("test"@) =~= spec_alias_path(*self));
        }
        r.append("::");
        r.append("test");
        r
    }
}

/// Every tag of a rewritten unit can be selected by a name-substring
/// filter: the text `:` tag `:` occurs in the alias name, for each tag
/// in the sequence, since each tag is an inner segment of the path
/// between the function's name and the leaf name `test`.
pub proof fn lemma_tag_filterable(u: RewrittenUnit, k: int)
    requires
        0 <= k < u.tags@.len(),
    ensures
        has_substring(spec_join_path(spec_alias_path(u)), ":"@ + u.tags@[k]@ + ":"@),
{
    let deep = u.tags.deep_view();
    assert(deep.len() == u.tags@.len());
    assert(deep[k] == u.tags@[k]@);
    let path = spec_alias_path(u);
    assert(path.len() == deep.len() + 2);
    assert(path[k + 1] == deep[k]);
    lemma_inner_segment_surrounded(path, k + 1);
}

/// The marker rewrite leaves exactly one way to read the emitted
/// function's test marker: no attribute on the emitted function is the
/// bare `test` marker any more, and each attribute that was one now
/// carries the current-namespace qualifier; everything else stands
/// unchanged.
pub proof fn lemma_marker_resolution(from: Seq<Attr>, to: Seq<Attr>)
    requires
        spec_attrs_rewritten(from, to),
    ensures
        forall|i: int| 0 <= i < to.len() ==> !spec_is_marker(#[trigger] to[i]),
        forall|i: int|
            0 <= i < from.len() && spec_is_marker(from[i]) ==> spec_marker_rewritten(
                from[i],
                #[trigger] to[i],
            ),
{
    assert forall|i: int| 0 <= i < to.len() implies !spec_is_marker(#[trigger] to[i]) by {
        assert(spec_attr_rewrite(from[i], to[i]));
        if spec_is_marker(from[i]) {
            assert(to[i].path.segments@.len() == 2);
        } else {
            assert(to[i] == from[i]);
        }
    }
}

} // verus!
