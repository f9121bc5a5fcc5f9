use tts_bridge::codec::decode_base64;
use tts_bridge::codec::encode_base64;
use tts_bridge::error::TtsError;
use tts_bridge::response::decode_audio;
use tts_bridge::response::interpret_response;

fn message_text(e: &TtsError) -> String {
    String::from_utf8(e.message()).unwrap()
}

#[test]
fn success_response_yields_decoded_audio() {
    let r = interpret_response(200, b"{\"data\":{\"audio\":\"aGVsbG8=\"}}");
    assert_eq!(r.unwrap(), vec![0x68u8, 0x65, 0x6c, 0x6c, 0x6f]);
}

#[test]
fn non_success_status_is_a_remote_api_error() {
    let r = interpret_response(401, b"{\"error\":\"invalid key\"}");
    match r {
        Err(TtsError::RemoteApi { status, body }) => {
            assert_eq!(status, 401);
            assert_eq!(body, b"{\"error\":\"invalid key\"}".to_vec());
        }
        other => panic!("expected a remote API error, got {:?}", other),
    }
    let e = interpret_response(401, b"{\"error\":\"invalid key\"}").unwrap_err();
    let text = message_text(&e);
    assert!(text.contains("401"));
    assert!(text.contains("invalid key"));
}

#[test]
fn status_boundaries_of_success() {
    assert!(interpret_response(299, b"{\"data\":{\"audio\":\"aGVsbG8=\"}}").is_ok());
    assert!(matches!(
        interpret_response(300, b"{\"data\":{\"audio\":\"aGVsbG8=\"}}"),
        Err(TtsError::RemoteApi { status: 300, .. })
    ));
    assert!(matches!(
        interpret_response(199, b"{\"data\":{\"audio\":\"aGVsbG8=\"}}"),
        Err(TtsError::RemoteApi { status: 199, .. })
    ));
}

#[test]
fn missing_audio_key_is_malformed() {
    let e = interpret_response(200, b"{\"data\":{}}").unwrap_err();
    assert!(matches!(e, TtsError::MalformedResponse));
    assert_eq!(message_text(&e), "audio data not found in response");
}

#[test]
fn wrong_shapes_are_malformed() {
    assert!(matches!(
        interpret_response(200, b"{}").unwrap_err(),
        TtsError::MalformedResponse
    ));
    assert!(matches!(
        interpret_response(200, b"{\"data\":\"x\"}").unwrap_err(),
        TtsError::MalformedResponse
    ));
    assert!(matches!(
        interpret_response(200, b"{\"data\":{\"audio\":5}}").unwrap_err(),
        TtsError::MalformedResponse
    ));
    assert!(matches!(
        interpret_response(200, b"not json at all").unwrap_err(),
        TtsError::MalformedResponse
    ));
}

#[test]
fn invalid_base64_is_a_decode_error() {
    let e = interpret_response(200, b"{\"data\":{\"audio\":\"not-valid-base64!!\"}}").unwrap_err();
    assert!(matches!(e, TtsError::Decode(_)));
    assert!(message_text(&e).starts_with("base64 decoding failed: "));
}

#[test]
fn decode_audio_decodes_valid_base64() {
    let r = decode_audio(b"aGVsbG8=").unwrap();
    assert_eq!(r, b"hello".to_vec());
    assert!(matches!(decode_audio(b"!!!").unwrap_err(), TtsError::Decode(_)));
}

#[test]
fn base64_round_trip_restores_arbitrary_bytes() {
    let all: Vec<u8> = (0u8..=255u8).collect();
    let encoded = encode_base64(&all);
    let decoded = decode_base64(&encoded).unwrap();
    assert_eq!(decoded, all);

    let empty: Vec<u8> = Vec::new();
    let encoded = encode_base64(&empty);
    let decoded = decode_base64(&encoded).unwrap();
    assert_eq!(decoded, empty);
}

#[test]
fn encode_matches_the_standard_alphabet() {
    let encoded = encode_base64(b"hello");
    assert_eq!(encoded, b"aGVsbG8=".to_vec());
    let decoded = decode_base64(b"aGVsbG8=").unwrap();
    assert_eq!(decoded, b"hello".to_vec());
}

#[test]
fn transport_error_message_wraps_the_cause() {
    let e = TtsError::Transport(b"connection refused".to_vec());
    assert_eq!(message_text(&e), "request failed: connection refused");
}

#[test]
fn remote_error_message_carries_large_status() {
    let e = TtsError::RemoteApi { status: 65535, body: b"oops".to_vec() };
    assert_eq!(message_text(&e), "remote API error 65535: oops");
}
