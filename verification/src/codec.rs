//! Byte-level decoding: Base64 (through the `base64` crate) and UTF-8.

use base64::Engine;
use vstd::prelude::*;
use vstd::utf8::{decode_utf8, valid_utf8};

verus! {

/// What the standard Base64 engine of the `base64` crate decodes `input`
/// to (`None` when it refuses the input); a function of the input only.
pub uninterp spec fn base64_standard_decode(input: Seq<u8>) -> Option<Seq<u8>>;

/// The bytes of an optional byte vector.
pub open spec fn opt_bytes(o: Option<Vec<u8>>) -> Option<Seq<u8>> {
    match o {
        Some(v) => Some(v@),
        None => None,
    }
}

/// `base64::engine::general_purpose::STANDARD.decode`: the decoded bytes,
/// or `None` where the crate returns an error.
#[verifier::external_body]
pub(crate) fn base64_decode(input: &[u8]) -> (r: Option<Vec<u8>>)
    ensures
        opt_bytes(r) == base64_standard_decode(input@),
{
    base64::engine::general_purpose::STANDARD.decode(input).ok()
}

/// `String::from_utf8`: the string the bytes encode, or `None` when they
/// are not valid UTF-8.
#[verifier::external_body]
pub(crate) fn string_from_utf8(bytes: Vec<u8>) -> (r: Option<String>)
    ensures
        r is Some <==> valid_utf8(bytes@),
        r matches Some(s) ==> s@ == decode_utf8(bytes@),
{
    String::from_utf8(bytes).ok()
}

} // verus!
