//! Turning received bytes into text.

use vstd::prelude::*;
use vstd::utf8::{
    decode_utf8, encode_utf8, encode_utf8_decode_utf8, encode_utf8_valid_utf8, valid_utf8,
};

verus! {

/// What permissive decoding makes of bytes that are no valid UTF-8: their
/// text with U+FFFD in place of each part that cannot be read.
pub uninterp spec fn replaced_text(bytes: Seq<u8>) -> Seq<char>;

/// The text that permissive decoding makes of `bytes`: the text they encode
/// where they are valid UTF-8, and [`replaced_text`] where they are not.
pub open spec fn lossy_text(bytes: Seq<u8>) -> Seq<char> {
    if valid_utf8(bytes) {
        decode_utf8(bytes)
    } else {
        replaced_text(bytes)
    }
}

/// Text that was encoded as UTF-8 decodes to itself.
pub proof fn lemma_lossy_text_of_encoding(text: Seq<char>)
    ensures
        lossy_text(encode_utf8(text)) == text,
{
    encode_utf8_valid_utf8(text);
    encode_utf8_decode_utf8(text);
}

/// Decodes `data` with [`String::from_utf8_lossy`].
///
/// Trusted: valid UTF-8 decodes to the text it encodes; for other input the
/// result is a function of the bytes alone, named [`replaced_text`], of which
/// nothing more is claimed.
#[verifier::external_body]
pub(crate) fn decode_lossy(data: &[u8]) -> (text: String)
    ensures
        valid_utf8(data@) ==> text@ == decode_utf8(data@),
        !valid_utf8(data@) ==> text@ == replaced_text(data@),
{
    String::from_utf8_lossy(data).into_owned()
}

} // verus!
