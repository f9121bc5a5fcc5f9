//! Base64, the scheme the remote API uses for the audio payload.

use vstd::prelude::*;
use base64::Engine;

verus! {

/// What standard padded base64 decoding yields for `s`: the decoded bytes
/// when `s` is valid base64, nothing otherwise.  The decoding is a function
/// of the input alone; its definition takes the whole alphabet to state, so
/// it only carries a name here.
pub uninterp spec fn b64_decode(s: Seq<u8>) -> Option<Seq<u8>>;

/// The standard padded base64 encoding of `b`.
pub uninterp spec fn b64_encode(b: Seq<u8>) -> Seq<u8>;

/// Relies on base64's `Engine::decode` with the `BASE64_STANDARD` engine:
/// the result depends on the input bytes alone; the failure text is the
/// decoder's own diagnostic.
#[verifier::external_body]
fn decode_raw(s: &[u8]) -> (r: Result<Vec<u8>, Vec<u8>>)
    ensures
        r is Ok <==> b64_decode(s@) is Some,
        r matches Ok(v) ==> Some(v@) == b64_decode(s@),
{
    match base64::prelude::BASE64_STANDARD.decode(s) {
        Ok(v) => Ok(v),
        Err(e) => Err(e.to_string().into_bytes()),
    }
}

/// Relies on base64's `Engine::encode` with the `BASE64_STANDARD` engine,
/// and on decoding with the same engine being its inverse; `encode` panics
/// when the encoded length overflows, so the input length is bounded.
#[verifier::external_body]
fn encode_raw(b: &[u8]) -> (r: Vec<u8>)
    requires
        b@.len() <= usize::MAX as nat / 4,
    ensures
        r@ == b64_encode(b@),
        b64_decode(r@) == Some(b@),
{
    base64::prelude::BASE64_STANDARD.encode(b).into_bytes()
}

/// Standard padded base64 encoding.  Decoding the result with the scheme
/// the response interpreter uses gives the input back unchanged.
pub fn encode_base64(b: &[u8]) -> (r: Vec<u8>)
    requires
        b@.len() <= usize::MAX as nat / 4,
    ensures
        r@ == b64_encode(b@),
        b64_decode(r@) == Some(b@),
{
    encode_raw(b)
}

/// Standard padded base64 decoding, with the decoder's diagnostic text on
/// failure.
pub fn decode_base64(s: &[u8]) -> (r: Result<Vec<u8>, Vec<u8>>)
    ensures
        r is Ok <==> b64_decode(s@) is Some,
        r matches Ok(v) ==> Some(v@) == b64_decode(s@),
{
    decode_raw(s)
}

} // verus!
