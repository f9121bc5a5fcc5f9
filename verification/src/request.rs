//! The synthesis request: the nested record the remote API expects, and the
//! JSON document built from it.

use vstd::prelude::*;
use crate::jsontext::escape_json;
use crate::jsontext::is_json_number;
use crate::jsontext::is_json_number_bytes;
use crate::jsontext::lit;
use crate::jsontext::push_bytes;
use crate::jsontext::push_escaped;
use crate::jsontext::push_lit;
use crate::numfmt::dec_i64;
use crate::numfmt::dec_u64;
use crate::numfmt::push_dec_i32;
use crate::numfmt::push_dec_u64;

verus! {

/// Voice parameters of one synthesis call.  `speed` and `volume` hold the
/// decimal text of the caller's numbers: the shell renders its
/// floating-point values to text before they reach the library.
pub struct VoiceSetting {
    pub voice_id: Vec<u8>,
    pub speed: Vec<u8>,
    pub volume: Vec<u8>,
    pub pitch: i32,
}

impl VoiceSetting {
    /// The numeric fields hold well-formed JSON numbers.
    pub open spec fn wf(self) -> bool {
        is_json_number(self.speed@) && is_json_number(self.volume@)
    }
}

/// Audio parameters of one synthesis call.  The bitrate is not here: the
/// bridge always requests 128000 and exposes no way to change it.
pub struct AudioSetting {
    pub sample_rate: u32,
    pub format: Vec<u8>,
}

/// One synthesis request, assembled from the flat call parameters and
/// consumed by the transport as a JSON document.
pub struct SynthesisRequest {
    pub model: Vec<u8>,
    pub text: Vec<u8>,
    pub voice_setting: VoiceSetting,
    pub audio_setting: AudioSetting,
}

/// The JSON document of a request: the exact nested shape of the remote
/// schema, with string fields escaped, the numeric text of `speed` and
/// `vol` verbatim, and `bitrate` always the literal 128000.
pub open spec fn spec_body(r: SynthesisRequest) -> Seq<u8> {
    lit("{\"model\":\""@) + escape_json(r.model@) + lit("\",\"text\":\""@) + escape_json(r.text@)
        + lit("\",\"voice_setting\":{\"voice_id\":\""@) + escape_json(r.voice_setting.voice_id@)
        + lit("\",\"speed\":"@) + r.voice_setting.speed@ + lit(",\"vol\":"@)
        + r.voice_setting.volume@ + lit(",\"pitch\":"@) + dec_i64(r.voice_setting.pitch as int)
        + lit("},\"audio_setting\":{\"sample_rate\":"@) + dec_u64(
        r.audio_setting.sample_rate as nat,
    ) + lit(",\"bitrate\":128000,\"format\":\""@) + escape_json(r.audio_setting.format@) + lit(
        "\"}}"@,
    )
}

impl SynthesisRequest {
    /// The numeric text fields are well-formed, so the document parses back.
    pub open spec fn wf(self) -> bool {
        self.voice_setting.wf()
    }

    /// Assembles the nested request from the flat call parameters, passing
    /// every value through unchanged; the speed and volume text must be
    /// JSON numbers, everything else is taken as it is.
    pub fn new(
        model: Vec<u8>,
        text: Vec<u8>,
        voice_id: Vec<u8>,
        speed: Vec<u8>,
        volume: Vec<u8>,
        pitch: i32,
        sample_rate: u32,
        audio_format: Vec<u8>,
    ) -> (r: Option<SynthesisRequest>)
        ensures
            r is Some <==> is_json_number(speed@) && is_json_number(volume@),
            r matches Some(q) ==> q.wf() && q.model@ == model@ && q.text@ == text@
                && q.voice_setting.voice_id@ == voice_id@ && q.voice_setting.speed@ == speed@
                && q.voice_setting.volume@ == volume@ && q.voice_setting.pitch == pitch
                && q.audio_setting.sample_rate == sample_rate && q.audio_setting.format@
                == audio_format@,
    {
        if is_json_number_bytes(speed.as_slice()) && is_json_number_bytes(volume.as_slice()) {
            Some(
                SynthesisRequest {
                    model,
                    text,
                    voice_setting: VoiceSetting { voice_id, speed, volume, pitch },
                    audio_setting: AudioSetting { sample_rate, format: audio_format },
                },
            )
        } else {
            None
        }
    }

    /// Writes the request as the JSON document the remote API expects.
    pub fn body_json(&self) -> (r: Vec<u8>)
        ensures
            r@ == spec_body(*self),
    {
        proof {
            reveal_strlit("{\"model\":\"");
            reveal_strlit("\",\"text\":\"");
            reveal_strlit("\",\"voice_setting\":{\"voice_id\":\"");
            reveal_strlit("\",\"speed\":");
            reveal_strlit(",\"vol\":");
            reveal_strlit(",\"pitch\":");
            reveal_strlit("},\"audio_setting\":{\"sample_rate\":");
            reveal_strlit(",\"bitrate\":128000,\"format\":\"");
            reveal_strlit("\"}}");
        }
        let mut out: Vec<u8> = Vec::new();
        push_lit(&mut out, "{\"model\":\"");
        push_escaped(&mut out, self.model.as_slice());
        push_lit(&mut out, "\",\"text\":\"");
        push_escaped(&mut out, self.text.as_slice());
        push_lit(&mut out, "\",\"voice_setting\":{\"voice_id\":\"");
        push_escaped(&mut out, self.voice_setting.voice_id.as_slice());
        push_lit(&mut out, "\",\"speed\":");
        push_bytes(&mut out, self.voice_setting.speed.as_slice());
        push_lit(&mut out, ",\"vol\":");
        push_bytes(&mut out, self.voice_setting.volume.as_slice());
        push_lit(&mut out, ",\"pitch\":");
        push_dec_i32(&mut out, self.voice_setting.pitch);
        push_lit(&mut out, "},\"audio_setting\":{\"sample_rate\":");
        push_dec_u64(&mut out, self.audio_setting.sample_rate as u64);
        push_lit(&mut out, ",\"bitrate\":128000,\"format\":\"");
        push_escaped(&mut out, self.audio_setting.format.as_slice());
        push_lit(&mut out, "\"}}");
        proof {
            assert(out@ =~= spec_body(*self));
        }
        out
    }
}

/// The fields read back from a request document: the three string fields
/// and the format unescaped, the four numeric fields as their decimal text,
/// in the order they stand in the document.
pub open spec fn parse_body(s: Seq<u8>) -> Option<
    (Seq<u8>, Seq<u8>, Seq<u8>, Seq<u8>, Seq<u8>, Seq<u8>, Seq<u8>, Seq<u8>),
> {
    match crate::jsontext::strip_lit(s, lit("{\"model\":\""@)) {
        None => None,
        Some(s1) => match crate::jsontext::split_string_field(s1) {
            None => None,
            Some(m) => match crate::jsontext::unescape_json(m.0) {
                None => None,
                Some(model) => match crate::jsontext::strip_lit(m.1, lit(",\"text\":\""@)) {
                    None => None,
                    Some(s2) => match crate::jsontext::split_string_field(s2) {
                        None => None,
                        Some(tx) => match crate::jsontext::unescape_json(tx.0) {
                            None => None,
                            Some(text) => parse_voice_on(model, text, tx.1),
                        },
                    },
                },
            },
        },
    }
}

/// Continues the read after the text field: the voice block, the audio
/// block, and the closing braces.
pub open spec fn parse_voice_on(model: Seq<u8>, text: Seq<u8>, s: Seq<u8>) -> Option<
    (Seq<u8>, Seq<u8>, Seq<u8>, Seq<u8>, Seq<u8>, Seq<u8>, Seq<u8>, Seq<u8>),
> {
    match crate::jsontext::strip_lit(s, lit(",\"voice_setting\":{\"voice_id\":\""@)) {
        None => None,
        Some(s3) => match crate::jsontext::split_string_field(s3) {
            None => None,
            Some(vi) => match crate::jsontext::unescape_json(vi.0) {
                None => None,
                Some(voice) => match crate::jsontext::strip_lit(vi.1, lit(",\"speed\":"@)) {
                    None => None,
                    Some(s4) => match crate::jsontext::split_at_byte(s4, 44) {
                        None => None,
                        Some(sp) => match crate::jsontext::strip_lit(sp.1, lit("\"vol\":"@)) {
                            None => None,
                            Some(s5) => match crate::jsontext::split_at_byte(s5, 44) {
                                None => None,
                                Some(vo) => match crate::jsontext::strip_lit(
                                    vo.1,
                                    lit("\"pitch\":"@),
                                ) {
                                    None => None,
                                    Some(s6) => match crate::jsontext::split_at_byte(s6, 125) {
                                        None => None,
                                        Some(pi) => parse_audio_on(
                                            model,
                                            text,
                                            voice,
                                            sp.0,
                                            vo.0,
                                            pi.0,
                                            pi.1,
                                        ),
                                    },
                                },
                            },
                        },
                    },
                },
            },
        },
    }
}

/// Continues the read after the voice block: the audio block and the
/// closing braces, with `bitrate` standing as the literal 128000.
pub open spec fn parse_audio_on(
    model: Seq<u8>,
    text: Seq<u8>,
    voice: Seq<u8>,
    speed: Seq<u8>,
    volume: Seq<u8>,
    pitch: Seq<u8>,
    s: Seq<u8>,
) -> Option<(Seq<u8>, Seq<u8>, Seq<u8>, Seq<u8>, Seq<u8>, Seq<u8>, Seq<u8>, Seq<u8>)> {
    match crate::jsontext::strip_lit(s, lit(",\"audio_setting\":{\"sample_rate\":"@)) {
        None => None,
        Some(s7) => match crate::jsontext::split_at_byte(s7, 44) {
            None => None,
            Some(sr) => match crate::jsontext::strip_lit(
                sr.1,
                lit("\"bitrate\":128000,\"format\":\""@),
            ) {
                None => None,
                Some(s8) => match crate::jsontext::split_string_field(s8) {
                    None => None,
                    Some(fm) => match crate::jsontext::unescape_json(fm.0) {
                        None => None,
                        Some(format) => if fm.1 == lit("}}"@) {
                            Some((model, text, voice, speed, volume, pitch, sr.0, format))
                        } else {
                            None
                        },
                    },
                },
            },
        },
    }
}

/// Reading the built document back reproduces every field exactly: the
/// nested shape, the order, and the literal 128000 bitrate are all there,
/// and the numeric fields come back as the very decimal text written.
#[verifier::rlimit(100)]
pub proof fn lemma_body_parses_back(r: SynthesisRequest)
    requires
        r.wf(),
    ensures
        parse_body(spec_body(r)) == Some(
            (
                r.model@,
                r.text@,
                r.voice_setting.voice_id@,
                r.voice_setting.speed@,
                r.voice_setting.volume@,
                dec_i64(r.voice_setting.pitch as int),
                dec_u64(r.audio_setting.sample_rate as nat),
                r.audio_setting.format@,
            ),
        ),
{
    let m = r.model@;
    let tx = r.text@;
    let vi = r.voice_setting.voice_id@;
    let sp = r.voice_setting.speed@;
    let vo = r.voice_setting.volume@;
    let pt = dec_i64(r.voice_setting.pitch as int);
    let sr = dec_u64(r.audio_setting.sample_rate as nat);
    let fm = r.audio_setting.format@;

    let t8 = lit("}}"@);
    let w8 = crate::jsontext::escape_json(fm) + seq![34u8] + t8;
    let t7 = lit("\"bitrate\":128000,\"format\":\""@) + w8;
    let w7 = sr + seq![44u8] + t7;
    let t6 = lit(",\"audio_setting\":{\"sample_rate\":"@) + w7;
    let w6 = pt + seq![125u8] + t6;
    let t5 = lit("\"pitch\":"@) + w6;
    let w5 = vo + seq![44u8] + t5;
    let t4 = lit("\"vol\":"@) + w5;
    let w4 = sp + seq![44u8] + t4;
    let t3 = lit(",\"speed\":"@) + w4;
    let w3 = crate::jsontext::escape_json(vi) + seq![34u8] + t3;
    let t2 = lit(",\"voice_setting\":{\"voice_id\":\""@) + w3;
    let w2 = crate::jsontext::escape_json(tx) + seq![34u8] + t2;
    let t1 = lit(",\"text\":\""@) + w2;
    let w1 = crate::jsontext::escape_json(m) + seq![34u8] + t1;
    let l1 = lit("{\"model\":\""@);

    reveal_strlit("{\"model\":\"");
    reveal_strlit("\",\"text\":\"");
    reveal_strlit(",\"text\":\"");
    reveal_strlit("\",\"voice_setting\":{\"voice_id\":\"");
    reveal_strlit(",\"voice_setting\":{\"voice_id\":\"");
    reveal_strlit("\",\"speed\":");
    reveal_strlit(",\"speed\":");
    reveal_strlit(",\"vol\":");
    reveal_strlit("\"vol\":");
    reveal_strlit(",\"pitch\":");
    reveal_strlit("\"pitch\":");
    reveal_strlit("},\"audio_setting\":{\"sample_rate\":");
    reveal_strlit(",\"audio_setting\":{\"sample_rate\":");
    reveal_strlit(",\"bitrate\":128000,\"format\":\"");
    reveal_strlit("\"bitrate\":128000,\"format\":\"");
    reveal_strlit("\"}}");
    reveal_strlit("}}");

    assert(lit("\",\"text\":\""@) =~= seq![34u8] + lit(",\"text\":\""@));
    assert(lit("\",\"voice_setting\":{\"voice_id\":\""@) =~= seq![34u8] + lit(
        ",\"voice_setting\":{\"voice_id\":\""@,
    ));
    assert(lit("\",\"speed\":"@) =~= seq![34u8] + lit(",\"speed\":"@));
    assert(lit(",\"vol\":"@) =~= seq![44u8] + lit("\"vol\":"@));
    assert(lit(",\"pitch\":"@) =~= seq![44u8] + lit("\"pitch\":"@));
    assert(lit("},\"audio_setting\":{\"sample_rate\":"@) =~= seq![125u8] + lit(
        ",\"audio_setting\":{\"sample_rate\":"@,
    ));
    assert(lit(",\"bitrate\":128000,\"format\":\""@) =~= seq![44u8] + lit(
        "\"bitrate\":128000,\"format\":\""@,
    ));
    assert(lit("\"}}"@) =~= seq![34u8] + lit("}}"@));

    assert(spec_body(r) =~= l1 + w1);

    crate::jsontext::lemma_strip_lit(l1, w1);
    crate::jsontext::lemma_split_escaped(m, t1);
    crate::jsontext::lemma_escape_round_trip(m);
    crate::jsontext::lemma_strip_lit(lit(",\"text\":\""@), w2);
    crate::jsontext::lemma_split_escaped(tx, t2);
    crate::jsontext::lemma_escape_round_trip(tx);
    crate::jsontext::lemma_strip_lit(lit(",\"voice_setting\":{\"voice_id\":\""@), w3);
    crate::jsontext::lemma_split_escaped(vi, t3);
    crate::jsontext::lemma_escape_round_trip(vi);
    crate::jsontext::lemma_strip_lit(lit(",\"speed\":"@), w4);
    crate::jsontext::lemma_number_bytes(sp);
    assert(forall|j: int| 0 <= j < sp.len() ==> sp[j] != 44);
    crate::jsontext::lemma_split_at_byte(sp, 44, t4);
    crate::jsontext::lemma_strip_lit(lit("\"vol\":"@), w5);
    crate::jsontext::lemma_number_bytes(vo);
    assert(forall|j: int| 0 <= j < vo.len() ==> vo[j] != 44);
    crate::jsontext::lemma_split_at_byte(vo, 44, t5);
    crate::jsontext::lemma_strip_lit(lit("\"pitch\":"@), w6);
    crate::numfmt::lemma_dec_i64_bytes(r.voice_setting.pitch as int);
    assert(forall|j: int| 0 <= j < pt.len() ==> pt[j] != 125);
    crate::jsontext::lemma_split_at_byte(pt, 125, t6);
    crate::jsontext::lemma_strip_lit(lit(",\"audio_setting\":{\"sample_rate\":"@), w7);
    crate::numfmt::lemma_dec_u64_digits(r.audio_setting.sample_rate as nat);
    assert(forall|j: int| 0 <= j < sr.len() ==> sr[j] != 44);
    crate::jsontext::lemma_split_at_byte(sr, 44, t7);
    crate::jsontext::lemma_strip_lit(lit("\"bitrate\":128000,\"format\":\""@), w8);
    crate::jsontext::lemma_split_escaped(fm, t8);
    crate::jsontext::lemma_escape_round_trip(fm);

    assert(parse_body(spec_body(r)) == Some((m, tx, vi, sp, vo, pt, sr, fm)));
}

/// The `Authorization` header value: the fixed bearer prefix, then the
/// caller's key verbatim.
pub fn authorization_value(api_key: &[u8]) -> (r: Vec<u8>)
    ensures
        r@ == lit("Bearer "@) + api_key@,
{
    proof {
        reveal_strlit("Bearer ");
    }
    let mut out: Vec<u8> = Vec::new();
    push_lit(&mut out, "Bearer ");
    push_bytes(&mut out, api_key);
    proof {
        assert(out@ =~= lit("Bearer "@) + api_key@);
    }
    out
}

/// The one endpoint the bridge ever posts to.
pub fn endpoint_url() -> (r: &'static str)
    ensures
        r@ == "https://api.minimaxi.com/v1/t2a_v2"@,
{
    "https://api.minimaxi.com/v1/t2a_v2"
}

} // verus!
