//! Reading bytes as UTF-8 text.
use vstd::prelude::*;
use vstd::utf8::{decode_utf8, valid_utf8};

verus! {

/// Relies on String::from_utf8: it accepts exactly the well-formed UTF-8 byte
/// strings and then holds the characters they encode.
#[verifier::external_body]
pub(crate) fn utf8_string(v: Vec<u8>) -> (r: Option<String>)
    ensures
        r is Some <==> valid_utf8(v@),
        r matches Some(s) ==> s@ == decode_utf8(v@),
{
    String::from_utf8(v).ok()
}

/// The UTF-8 bytes of a character sequence.
pub open spec fn encode(s: Seq<char>) -> Seq<u8> {
    vstd::utf8::encode_utf8(s)
}

} // verus!
