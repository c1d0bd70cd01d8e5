//! Text forms of keys, signatures and messages: Base58 for binary values and
//! UTF-8 for message text.

use vstd::prelude::*;
use vstd::utf8::*;

verus! {

/// The Base58 text that stands for a byte string.
pub uninterp spec fn base58_text(bytes: Seq<u8>) -> Seq<char>;

/// The byte string that a Base58 text stands for, if it is one.
pub uninterp spec fn base58_bytes(text: Seq<char>) -> Option<Seq<u8>>;

/// Calls `bs58::encode(..).into_string()` with the default (Bitcoin) alphabet.
/// The result is named `base58_text`; decoding it gives the input back, as
/// Base58 is one-to-one between byte strings and the texts it produces.
#[verifier::external_body]
pub(crate) fn base58_encode(bytes: &[u8]) -> (text: String)
    ensures
        text@ == base58_text(bytes@),
        base58_bytes(text@) == Some(bytes@),
{
    bs58::encode(bytes).into_string()
}

/// Calls `bs58::decode(..).into_vec()` with the default (Bitcoin) alphabet.
/// The result is named `base58_bytes`: `None` where `bs58` rejects the text
/// (a character outside the alphabet).
#[verifier::external_body]
pub(crate) fn base58_decode(text: &str) -> (bytes: Option<Vec<u8>>)
    ensures
        match bytes {
            Some(b) => base58_bytes(text@) == Some(b@),
            None => base58_bytes(text@) is None,
        },
{
    bs58::decode(text).into_vec().ok()
}

/// Calls `String::from_utf8`: the text that the bytes encode, or `None` where
/// they are not valid UTF-8.
#[verifier::external_body]
pub(crate) fn text_from_utf8(bytes: Vec<u8>) -> (text: Option<String>)
    ensures
        match text {
            Some(t) => valid_utf8(bytes@) && t@ == decode_utf8(bytes@),
            None => !valid_utf8(bytes@),
        },
{
    String::from_utf8(bytes).ok()
}

/// What a text decodes to from UTF-8 bytes: the inverse of `spec_bytes`.
pub open spec fn utf8_text(bytes: Seq<u8>) -> Option<Seq<char>> {
    if valid_utf8(bytes) {
        Some(decode_utf8(bytes))
    } else {
        None
    }
}

/// The UTF-8 bytes of a text, owned.
pub fn utf8_bytes(text: &str) -> (bytes: Vec<u8>)
    ensures
        bytes@ == encode_utf8(text@),
        utf8_text(bytes@) == Some(text@),
{
    broadcast use {encode_utf8_valid_utf8, encode_utf8_decode_utf8};
    let b = text.as_bytes();
    vstd::slice::slice_to_vec(b)
}

} // verus!
