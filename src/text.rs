use vstd::prelude::*;

verus! {

/// `s` with every underscore shown as a space.
pub open spec fn spaced(s: Seq<char>) -> Seq<char> {
    s.map_values(|c: char| if c == '_' { ' ' } else { c })
}

/// Relies on `str`'s `==`: two strings are equal when they hold the same
/// characters.
#[verifier::external_body]
pub(crate) fn same_text(a: &str, b: &str) -> (r: bool)
    ensures
        r == (a@ == b@),
{
    a == b
}

/// Relies on `str::replace`, which replaces every match of the pattern, here
/// each underscore, with the replacement, here a space.
#[verifier::external_body]
pub(crate) fn underscores_as_spaces(s: &str) -> (r: String)
    ensures
        r@ == spaced(s@),
{
    s.replace('_', " ")
}

} // verus!
