//! Chunks exchanged with the platform storage provider, which carries bytes
//! as standard base64 text.
use vstd::prelude::*;
use base64::Engine;
use crate::send::TransferError;

verus! {

#[verifier::external_type_specification]
#[verifier::external_body]
pub struct ExDecodeError(base64::DecodeError);

/// The bytes that standard base64 decodes the text `s` to, or `None` where
/// `s` is no valid standard base64.
pub uninterp spec fn base64_decoding(s: Seq<char>) -> Option<Seq<u8>>;

/// The standard base64 text, with padding, of the bytes `b`.
pub uninterp spec fn base64_encoding(b: Seq<u8>) -> Seq<char>;

/// Relies on base64's `Engine::decode` with the standard engine: it decodes
/// the text's bytes, or reports why they are no valid base64.
#[verifier::external_body]
fn decode_standard(s: &str) -> (r: Result<Vec<u8>, base64::DecodeError>)
    ensures
        r is Ok <==> base64_decoding(s@) is Some,
        r matches Ok(v) ==> base64_decoding(s@) == Some(v@),
{
    base64::engine::general_purpose::STANDARD.decode(s)
}

/// Relies on base64's `Engine::encode` with the standard engine, which
/// panics only where the encoded length overflows `usize`; with padding,
/// each started group of three bytes gives four characters.
#[verifier::external_body]
fn encode_standard(b: &[u8]) -> (r: String)
    requires
        b@.len() <= usize::MAX / 2,
    ensures
        r@ == base64_encoding(b@),
        r@.len() == 4 * ((b@.len() + 2) / 3),
{
    base64::engine::general_purpose::STANDARD.encode(b)
}

/// Relies on `ToString::to_string` over base64's `DecodeError`, which
/// describes the error.
#[verifier::external_body]
fn decode_error_text(e: &base64::DecodeError) -> (r: String) {
    e.to_string()
}

/// A chunk that the provider read: `bytes_read` is what it reports, `data`
/// the base64 text of the bytes. No byte read means the source is
/// exhausted (`Ok(None)`); otherwise the decoded bytes, or a failure where
/// `data` is no valid base64.
pub fn decode_provider_chunk(data: &str, bytes_read: i32) -> (r: Result<
    Option<Vec<u8>>,
    TransferError,
>)
    ensures
        bytes_read <= 0 ==> r == Ok::<Option<Vec<u8>>, TransferError>(None),
        bytes_read > 0 ==> (r is Ok <==> base64_decoding(data@) is Some),
        bytes_read > 0 ==> (r matches Ok(Some(v)) ==> base64_decoding(data@) == Some(v@)),
        bytes_read > 0 ==> !(r matches Ok(None)),
        r matches Err(e) ==> e is Failed,
{
    if bytes_read <= 0 {
        return Ok(None);
    }
    match decode_standard(data) {
        Ok(v) => Ok(Some(v)),
        Err(e) => {
            let mut reason = String::from_str("Failed to decode base64: ");
            let detail = decode_error_text(&e);
            reason.append(detail.as_str());
            Err(TransferError::Failed { reason })
        },
    }
}

/// The text handed to the provider to write the bytes `data`.
pub fn encode_provider_chunk(data: &[u8]) -> (r: String)
    requires
        data@.len() <= usize::MAX / 2,
    ensures
        r@ == base64_encoding(data@),
        r@.len() == 4 * ((data@.len() + 2) / 3),
{
    encode_standard(data)
}

} // verus!
