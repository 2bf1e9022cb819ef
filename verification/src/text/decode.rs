//! Texts that the standard library makes from raw data.

use vstd::prelude::*;
use vstd::utf8::{decode_utf8, valid_utf8};

verus! {

/// The text that bytes stand for when read as UTF-8, each ill-formed part
/// giving the replacement character U+FFFD.
pub uninterp spec fn utf8_lossy(bytes: Seq<u8>) -> Seq<char>;

/// The text that 16-bit units stand for when read as UTF-16, each unpaired
/// surrogate giving the replacement character U+FFFD.
pub uninterp spec fn utf16_lossy(units: Seq<u16>) -> Seq<char>;

/// A text between double quotes, with the escapes that the standard debug
/// format of a string slice puts in.
pub uninterp spec fn quoted(s: Seq<char>) -> Seq<char>;

/// `String::from_utf8_lossy`: the result is a function of the bytes, named
/// [`utf8_lossy`]. Of bytes that are well-formed UTF-8 nothing is replaced: the
/// result is the text that they encode. Nothing more is claimed of it.
#[verifier::external_body]
pub(crate) fn decode_utf8_lossy(bytes: &[u8]) -> (r: String)
    ensures
        r@ == utf8_lossy(bytes@),
        valid_utf8(bytes@) ==> r@ == decode_utf8(bytes@),
{
    String::from_utf8_lossy(bytes).into_owned()
}

/// `String::from_utf16_lossy`: the result is a function of the units, named
/// [`utf16_lossy`]; nothing more is claimed of it.
#[verifier::external_body]
pub(crate) fn decode_utf16_lossy(units: &[u16]) -> (r: String)
    ensures
        r@ == utf16_lossy(units@),
{
    String::from_utf16_lossy(units)
}

/// The `{:?}` format of a string slice: the result is a function of the text,
/// named [`quoted`]; nothing more is claimed of it.
#[verifier::external_body]
pub(crate) fn debug_quoted(s: &str) -> (r: String)
    ensures
        r@ == quoted(s@),
{
    format!("{:?}", s)
}

} // verus!
