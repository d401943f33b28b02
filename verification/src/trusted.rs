//! Declarations the engine trusts about functions of the standard library
//! that vstd gives no specification to.
use vstd::prelude::*;

verus! {

/// Relies on `String::from_utf8`: it returns, exactly for valid UTF-8 input,
/// the string backed by those same bytes, so its characters are the UTF-8
/// decoding of the input.
#[verifier::external_body]
pub(crate) fn string_from_utf8(bytes: Vec<u8>) -> (r: Option<String>)
    ensures
        r is Some <==> vstd::utf8::valid_utf8(bytes@),
        r matches Some(s) ==> vstd::utf8::encode_utf8(s@) == bytes@ && s@
            == vstd::utf8::decode_utf8(bytes@),
{
    String::from_utf8(bytes).ok()
}

} // verus!
