//! Where an expression ends, as syn reads it.
use vstd::prelude::*;

verus! {

/// How many token trees of `text` remain after the expression that syn
/// reads at its start; `None` where none can be read there.
pub uninterp spec fn trees_after_expr_of(text: Seq<char>) -> Option<usize>;

/// Relies on syn's `Expr` parser, run through `syn::parse::Parser::parse_str`:
/// it reads one expression at the start of `text`, as far as syn takes it,
/// and the token trees left after it are counted. The result depends on the
/// text alone.
#[verifier::external_body]
pub(crate) fn trees_after_expr(text: &str) -> (r: Option<usize>)
    ensures
        r == trees_after_expr_of(text@),
{
    let read = |input: syn::parse::ParseStream| {
        input.parse::<syn::Expr>()?;
        input.parse::<proc_macro2::TokenStream>()
    };
    syn::parse::Parser::parse_str(read, text).ok().map(|rest| rest.into_iter().count())
}

} // verus!
