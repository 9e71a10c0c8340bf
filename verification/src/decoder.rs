//! The front end of the byte-encoded dialect: from padded base64 text to bytes.

use crate::error::{EngineError, Failure};
use crate::text::{strip_whitespace, without_whitespace};
use vstd::prelude::*;

verus! {

/// `base64::DecodeError`, what the decoder fails with: opaque here.
#[verifier::external_type_specification]
#[verifier::external_body]
pub struct ExDecodeError(base64::DecodeError);

/// The bytes that the `base64` crate's `STANDARD` engine decodes `text` to,
/// or `None` where it rejects `text`.
pub uninterp spec fn base64_decoding(text: Seq<char>) -> Option<Seq<u8>>;

/// Calls `Engine::decode` of the `base64` crate on its `STANDARD` engine:
/// the standard alphabet, with padding required. The decoder's verdict and
/// bytes are not specified here; they are named `base64_decoding`.
#[verifier::external_body]
fn decode_standard(text: &str) -> (result: Result<Vec<u8>, base64::DecodeError>)
    ensures
        match result {
            Ok(bytes) => base64_decoding(text@) == Some(bytes@),
            Err(_) => base64_decoding(text@) is None,
        },
{
    base64::Engine::decode(&base64::engine::general_purpose::STANDARD, text)
}

/// What the payload of a byte-encoded program decodes to: whitespace is
/// dropped first, then the rest is decoded as a whole.
pub open spec fn payload(code: Seq<char>) -> Option<Seq<u8>> {
    base64_decoding(without_whitespace(code))
}

/// Decodes the source text of a byte-encoded program.
///
/// Whitespace anywhere in `code` is ignored. The result is the decoded byte
/// sequence, or `InvalidEncoding` exactly where the text that is left is
/// not valid padded base64.
pub fn decode_payload(code: &str) -> (result: Result<Vec<u8>, EngineError>)
    ensures
        match result {
            Ok(bytes) => payload(code@) == Some(bytes@),
            Err(error) => payload(code@) is None && error@ == Failure::InvalidEncoding,
        },
{
    let stripped = strip_whitespace(code);
    match decode_standard(stripped.as_str()) {
        Ok(bytes) => Ok(bytes),
        Err(_) => Err(EngineError::InvalidEncoding),
    }
}

} // verus!
