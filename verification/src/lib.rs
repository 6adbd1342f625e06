//! Core library of a PCM audio multiplexer: configuration model and
//! validation, per-output mixing with gain and priority ducking, a
//! fixed-point decibel/linear conversion, a frame encoder, stream and
//! playback-endpoint bookkeeping, and the admin command protocol.

use vstd::prelude::*;

pub mod admin;
pub mod channel;
pub mod config;
pub mod encoder;
pub mod gain;
pub mod input;
pub mod mixer;
pub mod routing;
pub mod sonos;
pub mod stream;
pub mod text;

verus! {

/// Version of the library, as reported by the admin `version` command.
pub fn version() -> (r: &'static str)
    ensures
        r@ == "0.1.0"@,
{
    "0.1.0"
}

/// An error of any part of the system.
#[derive(Debug)]
pub enum MuxError {
    /// Configuration loading or validation failed.
    Config(crate::config::ConfigError),
    /// An input driver failed.
    Input(crate::input::InputError),
    /// The encoder failed.
    Encoder(crate::encoder::EncoderError),
    /// The HTTP streamer failed.
    Stream(crate::stream::StreamError),
    /// A playback endpoint failed.
    Output(crate::sonos::OutputError),
    /// Anything else.
    Internal(String),
}

/// The human-readable text of a system error.
pub open spec fn mux_error_text(e: MuxError) -> Seq<char> {
    match e {
        MuxError::Config(c) => "Configuration error: "@ + crate::config::config_error_text(c),
        MuxError::Input(i) => "Input error: "@ + crate::input::input_error_text(i),
        MuxError::Encoder(c) => "Encoder error: "@ + crate::encoder::encoder_error_text(c),
        MuxError::Stream(st) => "Stream error: "@ + crate::stream::stream_error_text(st),
        MuxError::Output(o) => "Output error: "@ + crate::sonos::output_error_text(o),
        MuxError::Internal(s) => "Internal error: "@ + s@,
    }
}

impl MuxError {
    /// Renders the error for logs and exit messages.
    pub fn message(&self) -> (r: String)
        ensures
            r@ == mux_error_text(*self),
    {
        match self {
            MuxError::Config(c) => {
                let m = c.message();
                crate::text::concat_str("Configuration error: ", m.as_str())
            },
            MuxError::Input(i) => {
                let m = i.message();
                crate::text::concat_str("Input error: ", m.as_str())
            },
            MuxError::Encoder(c) => {
                let m = c.message();
                crate::text::concat_str("Encoder error: ", m.as_str())
            },
            MuxError::Stream(st) => {
                let m = st.message();
                crate::text::concat_str("Stream error: ", m.as_str())
            },
            MuxError::Output(o) => {
                let m = o.message();
                crate::text::concat_str("Output error: ", m.as_str())
            },
            MuxError::Internal(s) => crate::text::concat_str("Internal error: ", s.as_str()),
        }
    }
}

} // verus!
