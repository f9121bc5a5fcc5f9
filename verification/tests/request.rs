use tts_bridge::request::SynthesisRequest;
use tts_bridge::request::authorization_value;
use tts_bridge::request::endpoint_url;

fn build(
    model: &str,
    text: &str,
    voice_id: &str,
    speed: &str,
    volume: &str,
    pitch: i32,
    sample_rate: u32,
    audio_format: &str,
) -> Option<SynthesisRequest> {
    SynthesisRequest::new(
        model.as_bytes().to_vec(),
        text.as_bytes().to_vec(),
        voice_id.as_bytes().to_vec(),
        speed.as_bytes().to_vec(),
        volume.as_bytes().to_vec(),
        pitch,
        sample_rate,
        audio_format.as_bytes().to_vec(),
    )
}

#[test]
fn body_parses_back_to_the_nested_shape() {
    let req = build("speech-01", "hello world", "voice-7", "1.5", "0.8", -3, 32000, "mp3").unwrap();
    let body = req.body_json();
    let v: serde_json::Value = serde_json::from_slice(&body).unwrap();
    assert_eq!(v["model"].as_str().unwrap(), "speech-01");
    assert_eq!(v["text"].as_str().unwrap(), "hello world");
    assert_eq!(v["voice_setting"]["voice_id"].as_str().unwrap(), "voice-7");
    assert_eq!(v["voice_setting"]["speed"].as_f64().unwrap(), 1.5);
    assert_eq!(v["voice_setting"]["vol"].as_f64().unwrap(), 0.8);
    assert_eq!(v["voice_setting"]["pitch"].as_i64().unwrap(), -3);
    assert_eq!(v["audio_setting"]["sample_rate"].as_u64().unwrap(), 32000);
    assert_eq!(v["audio_setting"]["bitrate"].as_u64().unwrap(), 128000);
    assert_eq!(v["audio_setting"]["format"].as_str().unwrap(), "mp3");
}

#[test]
fn bitrate_is_fixed_at_128000() {
    let req = build("m", "t", "v", "2", "1", 0, 44100, "wav").unwrap();
    let body = req.body_json();
    let v: serde_json::Value = serde_json::from_slice(&body).unwrap();
    assert_eq!(v["audio_setting"]["bitrate"].as_u64().unwrap(), 128000);
    let text = String::from_utf8(body).unwrap();
    assert!(text.contains("\"bitrate\":128000"));
}

#[test]
fn string_fields_are_escaped_and_recovered() {
    let tricky = "a \"quoted\" \\ back\nslash\ttab\u{1}";
    let req = build("m", tricky, "v", "1", "1", 0, 8000, "mp3").unwrap();
    let body = req.body_json();
    let v: serde_json::Value = serde_json::from_slice(&body).unwrap();
    assert_eq!(v["text"].as_str().unwrap(), tricky);
}

#[test]
fn multibyte_text_passes_through_unescaped() {
    let text = "\u{4f60}\u{597d}, world";
    let req = build("m", text, "v", "1", "1", 0, 8000, "mp3").unwrap();
    let body = req.body_json();
    let v: serde_json::Value = serde_json::from_slice(&body).unwrap();
    assert_eq!(v["text"].as_str().unwrap(), text);
}

#[test]
fn empty_text_and_zero_speed_pass_through() {
    let req = build("m", "", "v", "0", "0", 0, 8000, "mp3").unwrap();
    let body = req.body_json();
    let v: serde_json::Value = serde_json::from_slice(&body).unwrap();
    assert_eq!(v["text"].as_str().unwrap(), "");
    assert_eq!(v["voice_setting"]["speed"].as_f64().unwrap(), 0.0);
}

#[test]
fn exact_document_for_plain_fields() {
    let req = build("m", "t", "v", "1", "2", 3, 4, "f").unwrap();
    let body = String::from_utf8(req.body_json()).unwrap();
    assert_eq!(
        body,
        "{\"model\":\"m\",\"text\":\"t\",\"voice_setting\":{\"voice_id\":\"v\",\"speed\":1,\
         \"vol\":2,\"pitch\":3},\"audio_setting\":{\"sample_rate\":4,\"bitrate\":128000,\
         \"format\":\"f\"}}"
    );
}

#[test]
fn speed_and_volume_must_be_json_numbers() {
    assert!(build("m", "t", "v", "abc", "1", 0, 8000, "mp3").is_none());
    assert!(build("m", "t", "v", "1", "", 0, 8000, "mp3").is_none());
    assert!(build("m", "t", "v", "01", "1", 0, 8000, "mp3").is_none());
    assert!(build("m", "t", "v", "1.", "1", 0, 8000, "mp3").is_none());
    assert!(build("m", "t", "v", "-", "1", 0, 8000, "mp3").is_none());
    assert!(build("m", "t", "v", "1.5e3", "1", 0, 8000, "mp3").is_some());
    assert!(build("m", "t", "v", "-0.25", "1e-2", 0, 8000, "mp3").is_some());
}

#[test]
fn extreme_numeric_fields_render_exactly() {
    let req = build("m", "t", "v", "1", "1", i32::MIN, u32::MAX, "mp3").unwrap();
    let body = String::from_utf8(req.body_json()).unwrap();
    assert!(body.contains("\"pitch\":-2147483648"));
    assert!(body.contains("\"sample_rate\":4294967295"));
    let v: serde_json::Value = serde_json::from_slice(body.as_bytes()).unwrap();
    assert_eq!(v["voice_setting"]["pitch"].as_i64().unwrap(), i32::MIN as i64);
    assert_eq!(v["audio_setting"]["sample_rate"].as_u64().unwrap(), u32::MAX as u64);
}

#[test]
fn authorization_header_keeps_the_key_verbatim() {
    let v = authorization_value(b"sk-123");
    assert_eq!(v, b"Bearer sk-123".to_vec());
}

#[test]
fn endpoint_is_fixed() {
    assert_eq!(endpoint_url(), "https://api.minimaxi.com/v1/t2a_v2");
}
