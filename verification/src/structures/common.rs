//! Shared pieces of the structure parsers.
use vstd::prelude::*;

verus! {

/// Returned whenever a fixed-layout structure fails to parse; parsing has no
/// partial-success mode, so the error carries no further detail.
#[derive(Debug, Clone, Copy, PartialEq, Eq, Structural)]
pub struct StructureError;

/// Relies on `String::from_utf8`: it succeeds exactly on valid UTF-8 input,
/// and the characters of the returned string are the decoding of the bytes.
#[verifier::external_body]
pub(crate) fn string_from_utf8(bytes: Vec<u8>) -> (r: Option<String>)
    ensures
        r is Some <==> vstd::utf8::valid_utf8(bytes@),
        r matches Some(s) ==> s@ == vstd::utf8::decode_utf8(bytes@),
{
    String::from_utf8(bytes).ok()
}

} // verus!
