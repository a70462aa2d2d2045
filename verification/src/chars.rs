//! Character classes of the language: ASCII only, by design.

use vstd::prelude::*;

verus! {

/// An ASCII decimal digit.
pub open spec fn spec_is_digit(c: char) -> bool {
    '0' <= c <= '9'
}

/// An ASCII letter or the underscore: what may begin an identifier.
pub open spec fn spec_is_letter(c: char) -> bool {
    'a' <= c <= 'z' || 'A' <= c <= 'Z' || c == '_'
}

/// What may continue an identifier.
pub open spec fn spec_is_alpha_numeric(c: char) -> bool {
    spec_is_letter(c) || spec_is_digit(c)
}

/// Space, tab, carriage return or newline: what separates tokens without being one.
pub open spec fn spec_is_blank(c: char) -> bool {
    c == ' ' || c == '\t' || c == '\r' || c == '\n'
}

#[verifier::when_used_as_spec(spec_is_digit)]
pub fn is_digit(c: char) -> (b: bool)
    ensures
        b == spec_is_digit(c),
{
    c >= '0' && c <= '9'
}

#[verifier::when_used_as_spec(spec_is_letter)]
pub fn is_letter(c: char) -> (b: bool)
    ensures
        b == spec_is_letter(c),
{
    c >= 'a' && c <= 'z' || c >= 'A' && c <= 'Z' || c == '_'
}

#[verifier::when_used_as_spec(spec_is_alpha_numeric)]
pub fn is_alpha_numeric(c: char) -> (b: bool)
    ensures
        b == spec_is_alpha_numeric(c),
{
    is_letter(c) || is_digit(c)
}

#[verifier::when_used_as_spec(spec_is_blank)]
pub fn is_blank(c: char) -> (b: bool)
    ensures
        b == spec_is_blank(c),
{
    c == ' ' || c == '\t' || c == '\r' || c == '\n'
}

} // verus!
