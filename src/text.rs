//! GBK text decoding of null-terminated strings.
use crate::cursor::{cstring, get_cstring_bytes};
use encoding::all::GBK;
use encoding::{DecoderTrap, Encoding};
use vstd::prelude::*;

verus! {

/// The text that lossy GBK decoding makes of `b`, each malformed sequence
/// replaced with U+FFFD.
pub uninterp spec fn gbk_text(b: Seq<u8>) -> Seq<char>;

/// The text of the null-terminated GBK string at the start of `s`; `None`
/// where `s` holds no terminator.
pub open spec fn gbk_cstring(s: Seq<u8>) -> Option<Seq<char>> {
    match cstring(s) {
        Some(c) => Some(gbk_text(c)),
        None => None,
    }
}

/// Relies on `encoding::all::GBK.decode` with `DecoderTrap::Replace`: the
/// result depends on the bytes alone, and the replacing trap never reports
/// an error, so the result is always `Ok`.
#[verifier::external_body]
pub(crate) fn decode_gbk_bytes(bytes: &[u8]) -> (r: Option<String>)
    ensures
        r is Some,
        r->0@ == gbk_text(bytes@),
{
    GBK.decode(bytes, DecoderTrap::Replace).ok()
}

/// Decodes the null-terminated GBK string at the start of `buf`, or returns
/// `None` where `buf` holds no terminator.
pub fn get_gbk_cstring(buf: &[u8]) -> (r: Option<String>)
    ensures
        r matches Some(s) ==> gbk_cstring(buf@) == Some(s@),
        r is None ==> gbk_cstring(buf@) is None,
{
    match get_cstring_bytes(buf) {
        Some(c) => decode_gbk_bytes(c),
        None => None,
    }
}

} // verus!
