//! The calls into the token lexer and the Rust parser that this library uses,
//! with what each one is relied on to return. Texts that proc-macro2 prints and
//! places that it reports depend on whether it runs on the compiler's token
//! streams or on its own lexer, which it decides per process; of those
//! results nothing is stated, and verified functions take them as arguments.
use crate::syntax::{Delim, Tree, TreeView};
use crate::synth::TargetShape;
use core::str::FromStr;
use proc_macro2::{Delimiter, Spacing, TokenTree};
use quote::ToTokens;
use syn::parse::Parser;
use vstd::prelude::*;

verus! {

/// Whether the Rust parser reads the text as exactly one plain identifier.
pub uninterp spec fn is_ident(text: Seq<char>) -> bool;

/// Relies on `proc_macro2::TokenStream::from_str` and its token trees: each
/// top-level tree with its text, a punctuation character with its spacing,
/// a group with its delimiter and the text of its inner stream. The printed
/// texts depend on the backend, so no contract is given.
#[verifier::external_body]
pub(crate) fn lex(text: &str) -> (r: Option<Vec<Tree>>) {
    let stream = proc_macro2::TokenStream::from_str(text).ok()?;
    Some(stream.into_iter().map(|t| match t {
        TokenTree::Ident(i) => Tree::Ident(i.to_string()),
        TokenTree::Punct(p) => Tree::Punct(p.as_char(), p.spacing() == Spacing::Joint),
        TokenTree::Literal(l) => Tree::Literal(l.to_string()),
        TokenTree::Group(g) => Tree::Group(match g.delimiter() {
            Delimiter::Parenthesis => Delim::Paren,
            Delimiter::Bracket => Delim::Bracket,
            Delimiter::Brace => Delim::Brace,
            Delimiter::None => Delim::Invisible,
        }, g.stream().to_string()),
    }).collect())
}

/// Relies on the `syn::Ident` parser: accepts one identifier that is not a
/// keyword.
#[verifier::external_body]
pub(crate) fn accepts_ident(text: &str) -> (r: bool)
    ensures
        r == is_ident(text@),
{
    syn::parse_str::<syn::Ident>(text).is_ok()
}

/// Relies on `syn::punctuated::Punctuated::<syn::Expr, syn::token::Comma>::parse_terminated`
/// through `syn::parse::Parser::parse_str`: reads the whole text as expressions
/// separated by commas, and prints each expression back. On failure, relies on
/// `syn::Error::span` and `proc_macro2::Span::start` for the place, except
/// for an empty span, which syn gives where the whole input ran out. Both the
/// printed expressions and the place depend on the backend, so no contract is
/// given.
#[verifier::external_body]
pub(crate) fn parse_key_list(text: &str) -> (r: Result<Vec<String>, Option<(usize, usize)>>) {
    match syn::punctuated::Punctuated::<syn::Expr, syn::token::Comma>::parse_terminated.parse_str(text) {
        Ok(list) => Ok(list.into_iter().map(|e| e.to_token_stream().to_string()).collect()),
        Err(e) if e.span().byte_range().is_empty() => Err(None),
        Err(e) => Err(Some((e.span().start().line, e.span().start().column))),
    }
}

/// Relies on `syn::parse_str::<syn::ItemStruct>` and `syn::Generics::split_for_impl`,
/// each part printed back as text. The printed texts depend on the backend,
/// so no contract is given.
#[verifier::external_body]
pub(crate) fn read_struct(item: &str) -> (r: Option<TargetShape>) {
    let s = syn::parse_str::<syn::ItemStruct>(item).ok()?;
    let (impl_generics, ty_generics, where_clause) = s.generics.split_for_impl();
    Some(TargetShape {
        declaration: s.to_token_stream().to_string(),
        name: s.ident.to_string(),
        impl_generics: impl_generics.to_token_stream().to_string(),
        ty_generics: ty_generics.to_token_stream().to_string(),
        where_clause: where_clause.map_or(String::new(), |w| w.to_token_stream().to_string()),
    })
}

/// Relies on `char::to_string`: the one-character text.
#[verifier::external_body]
pub(crate) fn char_text(c: char) -> (r: String)
    ensures
        r@ == seq![c],
{
    c.to_string()
}

} // verus!
