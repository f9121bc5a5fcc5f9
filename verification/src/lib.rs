//! Verified core of a desktop text-to-speech bridge.
//!
//! The library shapes the JSON request sent to the remote synthesis service,
//! interprets its response (status check, `data.audio` extraction, base64
//! decode), and renders structured errors as text.  The surrounding shell
//! performs the actual network and file I/O and hands plain values in and out.

pub mod codec;
pub mod error;
pub mod jsontext;
pub mod numfmt;
pub mod request;
pub mod response;
