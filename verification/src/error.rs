//! The error taxonomy of the bridging call, with its text rendering.

use vstd::prelude::*;
use crate::jsontext::lit;
use crate::jsontext::push_bytes;
use crate::jsontext::push_lit;
use crate::numfmt::dec_u64;
use crate::numfmt::push_dec_u64;

verus! {

/// One terminal failure of a synthesis call.  Every variant carries plain
/// text so the shell can surface it to the front-end as a string.
#[derive(Debug)]
pub enum TtsError {
    /// Connectivity, TLS or timeout failure below the protocol, with the
    /// transport's own description.
    Transport(Vec<u8>),
    /// A response with a non-success status, with the raw body text.
    RemoteApi { status: u16, body: Vec<u8> },
    /// The response held no string at `data.audio`.
    MalformedResponse,
    /// The audio field was not valid base64, with the decoder's description.
    Decode(Vec<u8>),
}

/// The rendered text of an error: a fixed phrase for the kind, then the
/// carried detail; the remote status code appears in decimal.
pub open spec fn spec_message(e: TtsError) -> Seq<u8> {
    match e {
        TtsError::Transport(cause) => lit("request failed: "@) + cause@,
        TtsError::RemoteApi { status, body } => lit("remote API error "@) + dec_u64(status as nat)
            + lit(": "@) + body@,
        TtsError::MalformedResponse => lit("audio data not found in response"@),
        TtsError::Decode(detail) => lit("base64 decoding failed: "@) + detail@,
    }
}

impl TtsError {
    /// Renders the error as the text handed to the front-end.
    pub fn message(&self) -> (r: Vec<u8>)
        ensures
            r@ == spec_message(*self),
    {
        let mut out: Vec<u8> = Vec::new();
        match self {
            TtsError::Transport(cause) => {
                proof {
                    reveal_strlit("request failed: ");
                }
                push_lit(&mut out, "request failed: ");
                push_bytes(&mut out, cause.as_slice());
            },
            TtsError::RemoteApi { status, body } => {
                proof {
                    reveal_strlit("remote API error ");
                    reveal_strlit(": ");
                }
                push_lit(&mut out, "remote API error ");
                push_dec_u64(&mut out, *status as u64);
                push_lit(&mut out, ": ");
                push_bytes(&mut out, body.as_slice());
            },
            TtsError::MalformedResponse => {
                proof {
                    reveal_strlit("audio data not found in response");
                }
                push_lit(&mut out, "audio data not found in response");
            },
            TtsError::Decode(detail) => {
                proof {
                    reveal_strlit("base64 decoding failed: ");
                }
                push_lit(&mut out, "base64 decoding failed: ");
                push_bytes(&mut out, detail.as_slice());
            },
        }
        proof {
            assert(out@ =~= spec_message(*self));
        }
        out
    }
}

} // verus!
