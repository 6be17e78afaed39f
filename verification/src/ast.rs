//! The syntactic model the rewriting engine works on.
//!
//! The engine never sees host-compiler syntax trees directly: an adapter
//! hands it attributes, tokens and function items as the plain values
//! defined here, and takes the rewritten unit back.

use vstd::prelude::*;

verus! {

/// One token from the argument list of a tag attribute.
///
/// The host compiler's lexer has already split the argument list into
/// tokens; the tag-list grammar is parsed over this alphabet.
#[derive(Debug)]
pub enum ArgToken {
    /// An identifier token, e.g. a tag name.
    Ident(String),
    /// A `,` separator.
    Comma,
    /// An `=` sign, the start of a key-value argument.
    EqSign,
    /// Any other token: a literal, another punctuation mark, or a group.
    Other,
}

/// The path of an attribute, e.g. `test_tag::tag` or `test`.
#[derive(Debug)]
pub struct AttrPath {
    /// Whether the path starts with a root qualifier (`::`).
    pub leading_colon: bool,
    /// The path's identifier segments, in order.
    pub segments: Vec<String>,
}

/// The argument shape of an attribute.
#[derive(Debug)]
pub enum AttrArgs {
    /// A bare attribute without arguments: `#[path]`.
    Empty,
    /// A parenthesized argument list: `#[path(...)]`.
    List {
        /// The argument list, tokenized.
        tokens: Vec<ArgToken>,
        /// The argument list's text, kept verbatim for rendering.
        raw: String,
    },
    /// A key-value argument: `#[path = ...]`.
    NameValue {
        /// The value's text, kept verbatim for rendering.
        raw: String,
    },
}

/// One attribute of a function.
#[derive(Debug)]
pub struct Attr {
    /// The attribute's path.
    pub path: AttrPath,
    /// The attribute's argument shape.
    pub args: AttrArgs,
}

/// The function item being rewritten.
///
/// Visibility, signature and body are carried verbatim and never
/// interpreted; only the name and the attribute list are read.
#[derive(Debug)]
pub struct FnItem {
    /// The function's attributes, in declaration order.
    pub attrs: Vec<Attr>,
    /// The visibility, verbatim; empty for a private function.
    pub vis: String,
    /// The qualifiers standing before `fn` (e.g. `async`), verbatim;
    /// empty if there are none.
    pub sig_head: String,
    /// The function's name.
    pub name: String,
    /// The rest of the signature after the name (parameter list and
    /// return type), verbatim.
    pub sig_tail: String,
    /// The function's body, braces included, verbatim.
    pub body: String,
}

/// Whether `c` may start an identifier.
pub open spec fn is_ident_start(c: char) -> bool {
    ('a' <= c && c <= 'z') || ('A' <= c && c <= 'Z') || c == '_'
}

/// Whether `c` may continue an identifier.
pub open spec fn is_ident_continue(c: char) -> bool {
    is_ident_start(c) || ('0' <= c && c <= '9')
}

/// A valid identifier: non-empty, an identifier-start character followed
/// by identifier-continue characters.
pub open spec fn is_ident(s: Seq<char>) -> bool {
    &&& s.len() > 0
    &&& is_ident_start(s[0])
    &&& forall|i: int| 1 <= i < s.len() ==> is_ident_continue(s[i])
}

/// A well-formed token: an identifier token holds a valid identifier.
pub open spec fn token_wf(t: ArgToken) -> bool {
    match t {
        ArgToken::Ident(s) => is_ident(s@),
        _ => true,
    }
}

} // verus!
