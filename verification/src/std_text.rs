//! Text operations of the standard library whose results the parsers depend on:
//! Unicode case mapping, UTF-8 decoding.
use vstd::prelude::*;
use vstd::utf8::{decode_utf8, valid_utf8};

verus! {

/// What `str::to_uppercase` returns for the text `s` (Unicode case mapping).
pub uninterp spec fn unicode_upper(s: Seq<char>) -> Seq<char>;

/// What `str::to_lowercase` returns for the text `s` (Unicode case mapping).
pub uninterp spec fn unicode_lower(s: Seq<char>) -> Seq<char>;

/// What `String::from_utf8_lossy` returns for the bytes `b`.
pub uninterp spec fn utf8_lossy(b: Seq<u8>) -> Seq<char>;

/// Calls `str::to_uppercase` on the text `s`. Claimed: the result is
/// `unicode_upper` of the input, a function of the input alone.
#[verifier::external_body]
pub fn to_upper(s: &[char]) -> (r: Vec<char>)
    ensures
        r@ == unicode_upper(s@),
{
    let text: String = s.iter().collect();
    text.to_uppercase().chars().collect()
}

/// Calls `str::to_lowercase` on the text `s`. Claimed: the result is
/// `unicode_lower` of the input, a function of the input alone.
#[verifier::external_body]
pub fn to_lower(s: &[char]) -> (r: Vec<char>)
    ensures
        r@ == unicode_lower(s@),
{
    let text: String = s.iter().collect();
    text.to_lowercase().chars().collect()
}

/// Calls `String::from_utf8` on the bytes `b`. Claimed, as its documentation
/// states: it succeeds exactly when the bytes are valid UTF-8, and then holds the
/// characters they encode.
#[verifier::external_body]
pub fn utf8_to_chars(b: &[u8]) -> (r: Option<Vec<char>>)
    ensures
        r is Some <==> valid_utf8(b@),
        r matches Some(cs) ==> cs@ == decode_utf8(b@),
{
    match String::from_utf8(b.to_vec()) {
        Ok(s) => Some(s.chars().collect()),
        Err(_) => None,
    }
}

/// Calls `String::from_utf8_lossy` on the bytes `b`. Claimed: the result is
/// `utf8_lossy` of the input, a function of the input alone.
#[verifier::external_body]
pub fn utf8_lossy_chars(b: &[u8]) -> (r: Vec<char>)
    ensures
        r@ == utf8_lossy(b@),
{
    String::from_utf8_lossy(b).chars().collect()
}

} // verus!
