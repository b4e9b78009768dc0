//! Base64 (standard alphabet, with padding) and UTF-8 conversions that stored
//! passwords go through.

use base64::Engine as _;
use vstd::prelude::*;
use vstd::utf8::{decode_utf8, encode_utf8, valid_utf8};

verus! {

#[verifier::external_type_specification]
#[verifier::external_body]
pub struct ExDecodeError(base64::DecodeError);

#[verifier::external_type_specification]
#[verifier::external_body]
pub struct ExFromUtf8Error(std::string::FromUtf8Error);

/// The bytes that the standard base64 engine decodes `text` to, or `None`
/// where it refuses `text`.
pub uninterp spec fn base64_decoded(text: Seq<char>) -> Option<Seq<u8>>;

/// The text that the standard base64 engine encodes `bytes` to.
pub uninterp spec fn base64_encoded(bytes: Seq<u8>) -> Seq<char>;

/// The password that `encoded` stands for: its base64 decoding, read as
/// UTF-8, where both succeed.
pub open spec fn decoded_password(encoded: Seq<char>) -> Option<Seq<char>> {
    match base64_decoded(encoded) {
        Some(bytes) => if valid_utf8(bytes) {
            Some(decode_utf8(bytes))
        } else {
            None
        },
        None => None,
    }
}

/// `base64::engine::general_purpose::STANDARD.decode`: succeeds exactly when
/// the engine accepts the text, and then gives the decoded bytes.
#[verifier::external_body]
pub(crate) fn base64_decode(text: &str) -> (r: Result<Vec<u8>, base64::DecodeError>)
    ensures
        r is Ok <==> base64_decoded(text@) is Some,
        r matches Ok(bytes) ==> base64_decoded(text@) == Some(bytes@),
{
    base64::engine::general_purpose::STANDARD.decode(text)
}

/// `base64::engine::general_purpose::STANDARD.encode_string` into an empty
/// `String`: the encoded text, which the same engine decodes back to `bytes`.
#[verifier::external_body]
pub(crate) fn base64_encode(bytes: &[u8]) -> (r: String)
    ensures
        r@ == base64_encoded(bytes@),
        base64_decoded(r@) == Some(bytes@),
{
    let mut buff = String::new();
    base64::engine::general_purpose::STANDARD.encode_string(bytes, &mut buff);
    buff
}

/// `String::from_utf8`: succeeds exactly on valid UTF-8, with the characters
/// that the bytes encode.
pub assume_specification[ String::from_utf8 ](vec: Vec<u8>) -> (r: Result<String, std::string::FromUtf8Error>)
    ensures
        r is Ok <==> valid_utf8(vec@),
        r matches Ok(s) ==> s@ == decode_utf8(vec@),
;

/// Why a stored password could not be taken.
#[derive(Debug)]
pub enum PasswordError {
    /// The text is not standard base64.
    InvalidBase64(base64::DecodeError),
    /// The decoded bytes are not UTF-8.
    InvalidUtf8(std::string::FromUtf8Error),
}

/// The password stored as `encoded`: its base64 decoding, read as UTF-8.
pub fn decode_password(encoded: &str) -> (r: Result<String, PasswordError>)
    ensures
        match decoded_password(encoded@) {
            Some(p) => r matches Ok(s) && s@ == p,
            None => r is Err,
        },
        r matches Err(PasswordError::InvalidBase64(_)) <==> base64_decoded(encoded@) is None,
{
    match base64_decode(encoded) {
        Ok(bytes) => match String::from_utf8(bytes) {
            Ok(s) => Ok(s),
            Err(e) => Err(PasswordError::InvalidUtf8(e)),
        },
        Err(e) => Err(PasswordError::InvalidBase64(e)),
    }
}

/// The stored form of `password`: the base64 encoding of its UTF-8 bytes,
/// which decodes back to `password`.
pub fn encode_password(password: &str) -> (r: String)
    ensures
        r@ == base64_encoded(encode_utf8(password@)),
        decoded_password(r@) == Some(password@),
{
    let r = base64_encode(password.as_bytes());
    proof {
        vstd::utf8::encode_utf8_valid_utf8(password@);
        vstd::utf8::encode_utf8_decode_utf8(password@);
    }
    r
}

} // verus!
