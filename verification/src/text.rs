//! UTF-8 payload decoding with a sentinel for binary data.

use vstd::prelude::*;

verus! {

/// The character sequence that payload bytes `b` decode to when `b` is valid
/// UTF-8, and `None` when it is not. Left uninterpreted: the decoding itself
/// is done by the standard library, and the contracts below pin every use of
/// it to this one name.
pub uninterp spec fn utf8_decode(b: Seq<u8>) -> Option<Seq<char>>;

/// Relies on `String::from_utf8`: it succeeds exactly when the input bytes
/// are valid UTF-8, and the decoded string is a function of the bytes alone.
#[verifier::external_body]
fn utf8_to_string(b: &Vec<u8>) -> (r: Option<String>)
    ensures
        r is Some <==> utf8_decode(b@) is Some,
        r is Some ==> r->0@ == utf8_decode(b@)->0,
{
    String::from_utf8(b.clone()).ok()
}

/// The sentinel text shown in place of a payload that is not valid UTF-8.
pub open spec fn binary_marker() -> Seq<char> {
    "Binary Data"@
}

/// The text a record displays for payload bytes `b`: the UTF-8 decoding when
/// there is one, the binary-data sentinel otherwise.
pub open spec fn decoded_text(b: Seq<u8>) -> Seq<char> {
    match utf8_decode(b) {
        Some(s) => s,
        None => binary_marker(),
    }
}

/// Decode payload bytes for display: the exact UTF-8 text when the bytes are
/// valid UTF-8, the literal `"Binary Data"` otherwise.
pub fn decode_text(b: &Vec<u8>) -> (r: String)
    ensures
        r@ == decoded_text(b@),
{
    match utf8_to_string(b) {
        Some(s) => s,
        None => String::from_str("Binary Data"),
    }
}

/// A payload whose bytes are valid UTF-8 is displayed verbatim: the record
/// text equals the decoded character sequence exactly.
pub proof fn lemma_valid_utf8_displayed_exactly(b: Seq<u8>, s: Seq<char>)
    requires
        utf8_decode(b) == Some(s),
    ensures
        decoded_text(b) == s,
{
}

/// A payload whose bytes are not valid UTF-8 is displayed as the binary-data
/// sentinel, never as partial or garbled text.
pub proof fn lemma_invalid_utf8_displayed_as_marker(b: Seq<u8>)
    requires
        utf8_decode(b) is None,
    ensures
        decoded_text(b) == binary_marker(),
{
}

} // verus!
