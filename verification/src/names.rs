//! Name conversion. A user-supplied module or library name is turned into a
//! `snake_case` file-stem form and a `PascalCase` declaration form; platform
//! names are compared after lowercasing. The conversions themselves are done
//! by an outside crate and by the standard library; their results are given
//! names that the rest of the library's contracts speak of.

use convert_case::{Case, Casing};
use vstd::prelude::*;

verus! {

/// The `snake_case` form of a name, as the case-conversion crate computes it.
pub uninterp spec fn snake_of(s: Seq<char>) -> Seq<char>;

/// The `PascalCase` form of a name, as the case-conversion crate computes it.
pub uninterp spec fn pascal_of(s: Seq<char>) -> Seq<char>;

/// The lowercase form of a string, as the standard library computes it.
pub uninterp spec fn lower_of(s: Seq<char>) -> Seq<char>;

/// Relies on convert_case's `Casing::to_case` with the snake case: the result
/// depends on the input characters alone.
#[verifier::external_body]
pub fn to_snake_case(s: &str) -> (r: String)
    ensures
        r@ == snake_of(s@),
{
    s.to_case(Case::Snake)
}

/// Relies on convert_case's `Casing::to_case` with the pascal case: the
/// result depends on the input characters alone.
#[verifier::external_body]
pub fn to_pascal_case(s: &str) -> (r: String)
    ensures
        r@ == pascal_of(s@),
{
    s.to_case(Case::Pascal)
}

/// Relies on str::to_lowercase: the result depends on the input characters
/// alone.
#[verifier::external_body]
pub fn to_lowercase(s: &str) -> (r: String)
    ensures
        r@ == lower_of(s@),
{
    s.to_lowercase()
}

} // verus!
