//! Validity of opaque expression fragments.
//!
//! The mini-language never evaluates or interprets an expression; it only
//! asks whether a fragment is one well-formed expression.  That question is
//! answered by the host language's own grammar, far too large to restate, so
//! the answer is given a name and the check is delegated.

use vstd::prelude::*;

verus! {

/// Whether the text is one complete well-formed expression.
pub uninterp spec fn is_valid_expr(s: Seq<char>) -> bool;

/// Relies on `syn::parse_str::<syn::Expr>`: whether a fragment parses as one
/// complete expression, consuming all of its tokens, depends on the
/// fragment's characters alone.
#[verifier::external_body]
pub(crate) fn check_expr(s: &str) -> (r: bool)
    ensures
        r == is_valid_expr(s@),
{
    syn::parse_str::<syn::Expr>(s).is_ok()
}

} // verus!
