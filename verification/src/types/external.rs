//! The payload a client sends when a frame button is pressed. These are
//! plain data carriers: the library holds the timestamp as milliseconds
//! since the Unix epoch, which is how the wire format carries it.

use vstd::prelude::*;

verus! {

/// A signed protocol message accompanying a button press.
#[derive(Debug, PartialEq)]
pub struct PayloadTrustedData {
    pub message_bytes: String,
}

/// The cast (post) a frame was attached to.
#[derive(Debug, PartialEq)]
pub struct PayloadCastId {
    pub fid: i32,
    pub hash: String,
}

/// The unverified, client-reported part of a button-press payload.
#[derive(Debug, PartialEq)]
pub struct PayloadUntrustedData {
    pub fid: i32,
    pub url: String,
    pub message_hash: String,
    pub timestamp_ms: i64,
    pub network: i32,
    pub button_index: i32,
    pub cast_id: PayloadCastId,
    pub input_text: Option<String>,
}

/// A button-press payload: the signed message and the client's own report.
#[derive(Debug, PartialEq)]
pub struct FrameActionPayload {
    pub trusted_data: PayloadTrustedData,
    pub untrusted_data: PayloadUntrustedData,
}

} // verus!
