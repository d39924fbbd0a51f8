//! Text operations that the schema engine takes from the standard library.

use vstd::prelude::*;

verus! {

/// The lowercase form of a text, as the standard library's Unicode case
/// mapping defines it.
pub uninterp spec fn lowercase(text: Seq<char>) -> Seq<char>;

/// The uppercase form of a text, as the standard library's Unicode case
/// mapping defines it.
pub uninterp spec fn uppercase(text: Seq<char>) -> Seq<char>;

/// Calls `str::to_lowercase`. Trusted: the result is the lowercase form of
/// the argument, a function of the argument's characters alone.
#[verifier::external_body]
pub(crate) fn to_lower(text: &str) -> (folded: String)
    ensures
        folded@ == lowercase(text@),
{
    text.to_lowercase()
}

/// Calls `str::to_uppercase`. Trusted: the result is the uppercase form of
/// the argument, a function of the argument's characters alone.
#[verifier::external_body]
pub(crate) fn to_upper(text: &str) -> (raised: String)
    ensures
        raised@ == uppercase(text@),
{
    text.to_uppercase()
}

/// Calls `core::str::from_utf8`. Trusted: the call succeeds exactly on
/// well-formed UTF-8, and then yields the characters that the bytes encode.
#[verifier::external_body]
pub(crate) fn decode_text(raw: &[u8]) -> (decoded: Option<&str>)
    ensures
        decoded is Some <==> vstd::utf8::valid_utf8(raw@),
        decoded matches Some(text) ==> text@ == vstd::utf8::decode_utf8(raw@),
{
    core::str::from_utf8(raw).ok()
}

} // verus!
