//! Case conversion of grammar symbols, done by the `heck` crate.

use vstd::prelude::*;

verus! {

/// The snake-case form that `heck` gives to a text.
pub uninterp spec fn snake_case(text: Seq<char>) -> Seq<char>;

/// The upper-case snake-case form that `heck` gives to a text.
pub uninterp spec fn shouty_snake_case(text: Seq<char>) -> Seq<char>;

/// Calls `heck::SnakeCase::to_snake_case` on a string slice. The conversion
/// reads nothing but its argument, so its result is a function of the text:
/// the contract names it [`snake_case`] and claims nothing more.
#[verifier::external_body]
pub(crate) fn to_snake_case(text: &str) -> (r: String)
    ensures
        r@ == snake_case(text@),
{
    heck::SnakeCase::to_snake_case(text)
}

/// Calls `heck::ShoutySnakeCase::to_shouty_snake_case` on a string slice. The
/// conversion reads nothing but its argument, so its result is a function of
/// the text: the contract names it [`shouty_snake_case`] and claims nothing more.
#[verifier::external_body]
pub(crate) fn to_shouty_snake_case(text: &str) -> (r: String)
    ensures
        r@ == shouty_snake_case(text@),
{
    heck::ShoutySnakeCase::to_shouty_snake_case(text)
}

} // verus!
