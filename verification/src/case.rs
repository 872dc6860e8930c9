//! Identifier case conversion, done by the `heck` crate.

use heck::{ToKebabCase, ToLowerCamelCase, ToSnakeCase, ToUpperCamelCase};
use vstd::prelude::*;

verus! {

/// What `heck` makes of an identifier in UpperCamelCase.
pub uninterp spec fn upper_camel_case(s: Seq<char>) -> Seq<char>;

/// What `heck` makes of an identifier in lowerCamelCase.
pub uninterp spec fn lower_camel_case(s: Seq<char>) -> Seq<char>;

/// What `heck` makes of an identifier in snake_case.
pub uninterp spec fn snake_case(s: Seq<char>) -> Seq<char>;

/// What `heck` makes of an identifier in kebab-case.
pub uninterp spec fn kebab_case(s: Seq<char>) -> Seq<char>;

/// `heck::ToUpperCamelCase::to_upper_camel_case` on `str`: the result depends
/// on the characters of `s` alone, and is named [`upper_camel_case`].
#[verifier::external_body]
pub(crate) fn to_upper_camel_case(s: &str) -> (r: String)
    ensures
        r@ == upper_camel_case(s@),
{
    s.to_upper_camel_case()
}

/// `heck::ToLowerCamelCase::to_lower_camel_case` on `str`: the result depends
/// on the characters of `s` alone, and is named [`lower_camel_case`].
#[verifier::external_body]
pub(crate) fn to_lower_camel_case(s: &str) -> (r: String)
    ensures
        r@ == lower_camel_case(s@),
{
    s.to_lower_camel_case()
}

/// `heck::ToSnakeCase::to_snake_case` on `str`: the result depends on the
/// characters of `s` alone, and is named [`snake_case`].
#[verifier::external_body]
pub(crate) fn to_snake_case(s: &str) -> (r: String)
    ensures
        r@ == snake_case(s@),
{
    s.to_snake_case()
}

/// `heck::ToKebabCase::to_kebab_case` on `str`: the result depends on the
/// characters of `s` alone, and is named [`kebab_case`].
#[verifier::external_body]
pub(crate) fn to_kebab_case(s: &str) -> (r: String)
    ensures
        r@ == kebab_case(s@),
{
    s.to_kebab_case()
}

} // verus!
