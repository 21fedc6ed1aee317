//! Session protocol engine for a streaming speech-transcription client.
//!
//! The library holds the verified core: the packet codec for the
//! line-oriented command/event protocol, the payload parsers for the
//! structured recognition events, and the session state machine that
//! sequences handshake, audio streaming, and termination.

use vstd::prelude::*;

pub mod clock;
pub mod config;
pub mod codec;
pub mod json;
pub mod numeric;
pub mod payload;
pub mod session;
pub mod text;

verus! {

/// How much of the session traffic is echoed to the console.
pub enum OutputType {
    Nil,
    Verbose,
    Trace,
}

/// Picks the console echo level from the two command-line flags;
/// tracing wins over verbose.
pub fn resolve_output_type(is_verbose: bool, is_trace: bool) -> (r: OutputType)
    ensures
        is_trace ==> r is Trace,
        !is_trace && is_verbose ==> r is Verbose,
        !is_trace && !is_verbose ==> r is Nil,
{
    if is_trace {
        OutputType::Trace
    } else if is_verbose {
        OutputType::Verbose
    } else {
        OutputType::Nil
    }
}

/// Picks the wire endpoint: one retains server-side logs, the other
/// does not.
pub fn endpoint_url(is_with_log: bool) -> (r: &'static str)
    ensures
        is_with_log ==> r@ == "wss://acp-api.amivoice.com/v1/"@,
        !is_with_log ==> r@ == "wss://acp-api.amivoice.com/v1/nolog/"@,
{
    if is_with_log {
        "wss://acp-api.amivoice.com/v1/"
    } else {
        "wss://acp-api.amivoice.com/v1/nolog/"
    }
}

} // verus!
