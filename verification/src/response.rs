//! The response interpreter: status check, `data.audio` extraction, and
//! base64 decoding of the audio payload.

use vstd::prelude::*;
use crate::codec::b64_decode;
use crate::codec::decode_base64;
use crate::error::TtsError;

verus! {

/// The string at `data.audio` of the body, when the body parses as JSON and
/// holds one there, nothing otherwise.  Parsing is deterministic, so this
/// is a function of the body bytes alone; what it yields takes the JSON
/// grammar to state, so the result only carries a name here.
pub uninterp spec fn audio_field(body: Seq<u8>) -> Option<Seq<u8>>;

/// Relies on serde_json's `from_slice::<Value>`, `Value::get` and
/// `Value::as_str`, chained as the lookup of `data.audio`: each is
/// deterministic, so the extracted field depends on the body bytes alone.
#[verifier::external_body]
fn extract_audio_field(body: &[u8]) -> (r: Option<Vec<u8>>)
    ensures
        r is Some <==> audio_field(body@) is Some,
        r matches Some(v) ==> Some(v@) == audio_field(body@),
{
    match serde_json::from_slice::<serde_json::Value>(body) {
        Ok(doc) => doc.get("data")
            .and_then(|data| data.get("audio"))
            .and_then(|audio| audio.as_str())
            .map(|text| text.as_bytes().to_vec()),
        Err(_) => None,
    }
}

/// A status the remote counts as success: the 2xx range.
pub open spec fn success_status(status: u16) -> bool {
    200 <= status && status <= 299
}

/// Decodes the audio text taken from a successful response: the decoded
/// bytes when it is valid base64, a decode error otherwise.
pub fn decode_audio(field: &[u8]) -> (r: Result<Vec<u8>, TtsError>)
    ensures
        b64_decode(field@) matches Some(b) ==> (r matches Ok(v) && v@ == b),
        b64_decode(field@) is None ==> (r matches Err(e) && e matches TtsError::Decode(_)),
{
    match decode_base64(field) {
        Ok(v) => Ok(v),
        Err(d) => Err(TtsError::Decode(d)),
    }
}

/// Interprets one remote response from its status code and raw body: a
/// non-success status is a remote API error carrying both; on success the
/// body must hold a string at `data.audio`, and that string must decode as
/// base64 into the audio bytes.
pub fn interpret_response(status: u16, body: &[u8]) -> (r: Result<Vec<u8>, TtsError>)
    ensures
        !success_status(status) ==> (r matches Err(e) && e matches TtsError::RemoteApi {
            status: s,
            body: b,
        } && s == status && b@ == body@),
        (success_status(status) && audio_field(body@) is None) ==> (r matches Err(e)
            && e matches TtsError::MalformedResponse),
        (success_status(status) && audio_field(body@) is Some && b64_decode(
            audio_field(body@)->0,
        ) is Some) ==> (r matches Ok(v) && Some(v@) == b64_decode(audio_field(body@)->0)),
        (success_status(status) && audio_field(body@) is Some && b64_decode(
            audio_field(body@)->0,
        ) is None) ==> (r matches Err(e) && e matches TtsError::Decode(_)),
{
    if !(200 <= status && status <= 299) {
        let copy: Vec<u8> = vstd::slice::slice_to_vec(body);
        return Err(TtsError::RemoteApi { status, body: copy });
    }
    match extract_audio_field(body) {
        None => Err(TtsError::MalformedResponse),
        Some(field) => decode_audio(field.as_slice()),
    }
}

} // verus!
