//! Name normalization. The conversions come from the heck crate; each
//! result is a pure function of the input characters, named here so that
//! contracts can speak of it.

use vstd::prelude::*;

verus! {

/// The CamelCase form heck computes for a name.
pub uninterp spec fn camel_of(s: Seq<char>) -> Seq<char>;

/// The snake_case form heck computes for a name.
pub uninterp spec fn snake_of(s: Seq<char>) -> Seq<char>;

/// Relies on heck::ToUpperCamelCase::to_upper_camel_case: the CamelCase
/// form, a function of the input characters alone.
#[verifier::external_body]
pub(crate) fn to_camel(s: &str) -> (r: String)
    ensures
        r@ == camel_of(s@),
{
    heck::ToUpperCamelCase::to_upper_camel_case(s)
}

/// Relies on heck::ToSnakeCase::to_snake_case: the snake_case form, a
/// function of the input characters alone.
#[verifier::external_body]
pub(crate) fn to_snake(s: &str) -> (r: String)
    ensures
        r@ == snake_of(s@),
{
    heck::ToSnakeCase::to_snake_case(s)
}

} // verus!
