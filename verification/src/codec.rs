//! The calls this library makes into `quick_xml` and into `std` text
//! conversion, each with the contract the library relies on.

use vstd::prelude::*;
use vstd::utf8::*;

use quick_xml::encoding::{Decoder, EncodingError};
use quick_xml::escape::EscapeError;
use quick_xml::events::attributes::AttrError;

verus! {

#[verifier::external_type_specification]
#[verifier::external_body]
pub struct ExDecoder(Decoder);

#[verifier::external_type_specification]
#[verifier::external_body]
pub struct ExEncodingError(EncodingError);

#[verifier::external_type_specification]
#[verifier::external_body]
pub struct ExEscapeError(EscapeError);

#[verifier::external_type_specification]
#[verifier::external_body]
pub struct ExAttrError(AttrError);

/// What `quick_xml::escape::unescape` gives back for a text: `Some` of the
/// text with every `&...;` reference replaced, or `None` where it refuses
/// the text (unknown entity, unterminated or malformed reference).
pub uninterp spec fn xml_unescape(text: Seq<char>) -> Option<Seq<char>>;

/// A text holds no `&`, so no reference can start in it.
pub open spec fn free_of_references(text: Seq<char>) -> bool {
    !text.contains('&')
}

/// What `String::from_utf8_lossy` makes of a byte string.
pub uninterp spec fn utf8_lossy(bytes: Seq<u8>) -> Seq<char>;

/// The characters that a byte string stands for, when it is valid UTF-8.
pub open spec fn utf8_text(bytes: Seq<u8>) -> Option<Seq<char>> {
    if valid_utf8(bytes) {
        Some(decode_utf8(bytes))
    } else {
        None
    }
}

/// Calls `quick_xml::encoding::Decoder::decode`. Built without the
/// `encoding` feature, that is `std::str::from_utf8`: it succeeds exactly on
/// valid UTF-8 and then gives back the decoded characters. This crate does
/// not enable that feature; enabling it would make this contract false, as
/// the decoder would then follow the encoding the document declares.
#[verifier::external_body]
pub fn decode_bytes(decoder: &Decoder, bytes: &[u8]) -> (r: Result<String, EncodingError>)
    ensures
        r is Ok <==> utf8_text(bytes@) is Some,
        r matches Ok(s) ==> utf8_text(bytes@) == Some(s@),
{
    match decoder.decode(bytes) {
        Ok(s) => Ok(s.into_owned()),
        Err(e) => Err(e),
    }
}

/// Calls `quick_xml::escape::unescape`. Its result is named by
/// `xml_unescape`; the source also shows that a text without `&` comes back
/// unchanged.
#[verifier::external_body]
pub fn unescape(text: &str) -> (r: Result<String, EscapeError>)
    ensures
        r is Ok <==> xml_unescape(text@) is Some,
        r matches Ok(s) ==> xml_unescape(text@) == Some(s@),
        free_of_references(text@) ==> r is Ok && r->Ok_0@ == text@,
{
    match quick_xml::escape::unescape(text) {
        Ok(s) => Ok(s.into_owned()),
        Err(e) => Err(e),
    }
}

/// Calls `String::from_utf8_lossy`. Its result is named by `utf8_lossy`;
/// the documentation states that valid UTF-8 is decoded as it stands.
#[verifier::external_body]
pub fn lossy_text(bytes: &[u8]) -> (r: String)
    ensures
        r@ == utf8_lossy(bytes@),
        utf8_text(bytes@) matches Some(t) ==> r@ == t,
{
    String::from_utf8_lossy(bytes).into_owned()
}

} // verus!
