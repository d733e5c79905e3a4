use vstd::prelude::*;
use hyper::header::{HeaderValue, InvalidHeaderValue};
use vstd::utf8::encode_utf8;

verus! {

#[verifier::external_type_specification]
#[verifier::external_body]
pub struct ExHeaderValue(HeaderValue);

#[verifier::external_type_specification]
#[verifier::external_body]
pub struct ExInvalidHeaderValue(InvalidHeaderValue);

/// A byte that may stand in an HTTP header value: a tab, or any byte from
/// 32 up but DEL.
pub open spec fn is_header_value_byte(b: u8) -> bool {
    (b >= 32 && b != 127) || b == 9
}

pub open spec fn is_header_value_bytes(bytes: Seq<u8>) -> bool {
    forall|i: int| 0 <= i < bytes.len() ==> is_header_value_byte(#[trigger] bytes[i])
}

/// Relies on http's `HeaderValue::from_str`, which checks each byte of the
/// text and fails on the first one that a header value cannot hold.
pub assume_specification[ HeaderValue::from_str ](src: &str) -> (r: Result<
    HeaderValue,
    InvalidHeaderValue,
>)
    ensures
        r is Ok <==> is_header_value_bytes(encode_utf8(src@)),
;

/// What `{:?}` writes for a string: the text quoted, with escapes.
pub uninterp spec fn debug_quoted(s: Seq<char>) -> Seq<char>;

/// Relies on std's `Debug` for `str`, which depends on the characters alone.
#[verifier::external_body]
pub(crate) fn quoted(s: &str) -> (r: String)
    ensures
        r@ == debug_quoted(s@),
{
    format!("{:?}", s)
}

/// Relies on http's `Debug` for `InvalidHeaderValue`, which writes the type's
/// name and skips its one private field.
#[verifier::external_body]
pub(crate) fn invalid_value_text(e: &InvalidHeaderValue) -> (r: String)
    ensures
        r@ == "InvalidHeaderValue"@,
{
    format!("{:?}", e)
}

} // verus!
