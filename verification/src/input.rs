//! The audio format shared across the system, and input errors.
//!
//! All audio is interleaved 16-bit stereo at 44.1 kHz, carried in buffers
//! of samples. The drivers that produce such buffers — capture device,
//! file reader, HTTP fetcher, silence generator — run on their own
//! threads outside the library and feed the mixer through the bounded
//! queues of the sources.

use vstd::prelude::*;
use crate::text::concat_str;

verus! {

/// One 16-bit PCM sample.
pub type Frame = i16;

/// A chunk of interleaved stereo samples.
pub type AudioBuffer = Vec<i16>;

/// An error raised by an input driver.
#[derive(Debug)]
pub enum InputError {
    /// The device, file or URL could not be opened.
    Initialization(String),
    /// Reading from the input failed.
    Read(String),
}

/// The human-readable text of an input error.
pub open spec fn input_error_text(e: InputError) -> Seq<char> {
    match e {
        InputError::Initialization(s) => "Failed to initialize input: "@ + s@,
        InputError::Read(s) => "Failed to read from input: "@ + s@,
    }
}

impl InputError {
    /// Renders the error for logs and admin responses.
    pub fn message(&self) -> (r: String)
        ensures
            r@ == input_error_text(*self),
    {
        match self {
            InputError::Initialization(s) => concat_str("Failed to initialize input: ", s.as_str()),
            InputError::Read(s) => concat_str("Failed to read from input: ", s.as_str()),
        }
    }
}

} // verus!
