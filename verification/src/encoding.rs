use vstd::prelude::*;
use vstd::utf8::{valid_utf8, decode_utf8, encode_utf8};
use base64::Engine;

verus! {

/// What the standard engine of the base64 crate (`STANDARD.encode`) writes for the UTF-8
/// bytes of a text.
pub uninterp spec fn base64_of_text(s: Seq<char>) -> Seq<char>;

/// What the standard engine of the base64 crate (`STANDARD.decode`) reads from the UTF-8
/// bytes of a text: the bytes it encodes, or nothing when it is not valid padded base64.
pub uninterp spec fn base64_bytes(text: Seq<char>) -> Option<Seq<u8>>;

/// Encodes the UTF-8 bytes of a text as padded standard base64.
/// Trusted: calls `base64::engine::general_purpose::STANDARD.encode`, whose text is named
/// `base64_of_text`. The crate's decoder of the same engine reads back the bytes that its
/// encoder wrote (the canonical padded form, which is what it accepts; the crate checks this
/// round trip in its tests and fuzz targets). `encode` panics only when the encoded length,
/// four characters for each three bytes, overflows a `usize`; a `str` holds at most
/// `isize::MAX` bytes, so that cannot happen.
#[verifier::external_body]
pub(crate) fn base64_encode(s: &str) -> (r: String)
    ensures
        r@ == base64_of_text(s@),
        base64_bytes(r@) == Some(encode_utf8(s@)),
{
    base64::engine::general_purpose::STANDARD.encode(s)
}

/// Decodes padded standard base64.
/// Trusted: calls `base64::engine::general_purpose::STANDARD.decode` on the text's bytes and
/// keeps the bytes, or nothing in place of its error; the bytes are named `base64_bytes`.
#[verifier::external_body]
pub(crate) fn base64_decode(text: &str) -> (r: Option<Vec<u8>>)
    ensures
        r matches Some(b) ==> base64_bytes(text@) == Some(b@),
        r is None ==> base64_bytes(text@) is None,
{
    base64::engine::general_purpose::STANDARD.decode(text).ok()
}

/// The text that UTF-8 bytes encode, if they are valid UTF-8.
/// Trusted: `String::from_utf8` succeeds exactly on valid UTF-8 and then holds the characters
/// that the bytes encode, as std documents.
#[verifier::external_body]
pub(crate) fn string_from_utf8(bytes: Vec<u8>) -> (r: Option<String>)
    ensures
        r is Some <==> valid_utf8(bytes@),
        r matches Some(s) ==> s@ == decode_utf8(bytes@),
{
    String::from_utf8(bytes).ok()
}

} // verus!
