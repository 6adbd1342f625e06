//! The frame encoder of the output pipeline.
//!
//! This is the development stand-in for a real MP3 encoder: it emits, per
//! call, one mock frame of the size a real encoder running at the
//! configured bitrate would produce — the two sync bytes 0xFF 0xE0
//! followed by zero padding — and keeps a running total of bytes encoded.
//! The contract pins the exact bytes, so the pipeline around it can be
//! verified against the sizes and framing a real encoder is sized for.

use vstd::prelude::*;
use crate::text::concat_str;

verus! {

/// Lowest bitrate the encoder accepts, in kbit/s.
pub const MIN_BITRATE_KBPS: i32 = 8;

/// Highest bitrate the encoder accepts, in kbit/s.
pub const MAX_BITRATE_KBPS: i32 = 320;

/// Most samples one encode call takes; callers split longer buffers.
pub const MAX_ENCODE_SAMPLES: usize = 0x4000000;

/// An error raised by the encoder.
#[derive(Debug)]
pub enum EncoderError {
    /// The encoder could not be set up.
    Initialization(String),
    /// Encoding failed.
    Encode(String),
}

/// The human-readable text of an encoder error.
pub open spec fn encoder_error_text(e: EncoderError) -> Seq<char> {
    match e {
        EncoderError::Initialization(s) => "Failed to initialize encoder: "@ + s@,
        EncoderError::Encode(s) => "Failed to encode: "@ + s@,
    }
}

impl EncoderError {
    /// Renders the error for logs and admin responses.
    pub fn message(&self) -> (r: String)
        ensures
            r@ == encoder_error_text(*self),
    {
        match self {
            EncoderError::Initialization(s) => concat_str("Failed to initialize encoder: ", s.as_str()),
            EncoderError::Encode(s) => concat_str("Failed to encode: ", s.as_str()),
        }
    }
}

/// How many bytes one encode call produces for `n` interleaved samples at
/// `bitrate` kbit/s: bitrate * 1000 / 8 bytes per second, over the
/// duration of n / 2 stereo frames at 44100 frames per second.
pub open spec fn encoded_len(bitrate: int, n: int) -> int {
    (bitrate * 125) * (n / 2) / 44100
}

/// The mock frame of a given length: the MP3 sync bytes, zero-padded.
pub open spec fn mock_frame(len: int) -> Seq<u8> {
    Seq::new(
        len as nat,
        |i: int|
            if i == 0 {
                0xFFu8
            } else if i == 1 {
                0xE0u8
            } else {
                0u8
            },
    )
}

/// The stateful encoder of one output pipeline.
pub struct Lame {
    /// Configured bitrate in kbit/s.
    pub bitrate: i32,
    /// Total bytes handed out so far (saturating).
    pub bytes_encoded: usize,
}

impl Lame {
    /// The encoder is configured within the accepted bitrate range.
    pub open spec fn wf(&self) -> bool {
        MIN_BITRATE_KBPS <= self.bitrate <= MAX_BITRATE_KBPS
    }

    /// An encoder at the given bitrate. Accepts exactly the bitrates of
    /// the MP3 range, 8 to 320 kbit/s.
    pub fn new(bitrate: i32) -> (r: Result<Lame, EncoderError>)
        ensures
            r is Ok <==> MIN_BITRATE_KBPS <= bitrate <= MAX_BITRATE_KBPS,
            match r {
                Ok(l) => l.bitrate == bitrate && l.bytes_encoded == 0 && l.wf(),
                Err(e) => e is Initialization,
            },
    {
        if bitrate < MIN_BITRATE_KBPS || bitrate > MAX_BITRATE_KBPS {
            return Err(
                EncoderError::Initialization(String::from_str("Unsupported bitrate")),
            );
        }
        Ok(Lame { bitrate, bytes_encoded: 0 })
    }

    /// Encodes one buffer of interleaved stereo samples: returns the mock
    /// frame whose length a real encoder at this bitrate would produce
    /// for that many samples, and adds it to the running total.
    pub fn encode(&mut self, pcm: &Vec<i16>) -> (r: Result<Vec<u8>, EncoderError>)
        requires
            old(self).wf(),
            pcm@.len() <= MAX_ENCODE_SAMPLES,
        ensures
            final(self).wf(),
            final(self).bitrate == old(self).bitrate,
            r is Ok,
            match r {
                Ok(buf) => {
                    &&& buf@ == mock_frame(encoded_len(old(self).bitrate as int, pcm@.len() as int))
                    &&& final(self).bytes_encoded == if old(self).bytes_encoded + buf@.len()
                        <= usize::MAX {
                        old(self).bytes_encoded + buf@.len()
                    } else {
                        usize::MAX as int
                    }
                },
                Err(_) => false,
            },
    {
        let n = pcm.len();
        proof {
            assert(0 <= (n as int) / 2 <= 0x2000000);
            assert(((self.bitrate as int) * 125) * ((n as int) / 2) <= 40000 * 0x2000000)
                by (nonlinear_arith)
                requires
                    8 <= self.bitrate <= 320,
                    0 <= (n as int) / 2 <= 0x2000000,
            ;
            assert(((self.bitrate as int) * 125) * ((n as int) / 2) >= 0) by (nonlinear_arith)
                requires
                    8 <= self.bitrate,
                    0 <= (n as int) / 2,
            ;
        }
        let expected64: u64 = ((self.bitrate as u64) * 125) * ((n as u64) / 2) / 44100;
        proof {
            assert(expected64 as int == encoded_len(self.bitrate as int, n as int));
            vstd::arithmetic::div_mod::lemma_div_is_ordered(
                ((self.bitrate as int) * 125) * ((n as int) / 2),
                (40000 * 0x2000000) as int,
                44100,
            );
            vstd::arithmetic::div_mod::lemma_div_pos_is_pos(
                ((self.bitrate as int) * 125) * ((n as int) / 2),
                44100,
            );
        }
        let expected: usize = expected64 as usize;
        let mut buf: Vec<u8> = Vec::new();
        let mut i: usize = 0;
        while i < expected
            invariant
                0 <= i <= expected,
                buf@.len() == i,
                forall|x: int|
                    0 <= x < i ==> buf@[x] == (if x == 0 {
                        0xFFu8
                    } else if x == 1 {
                        0xE0u8
                    } else {
                        0u8
                    }),
            decreases expected - i,
        {
            if i == 0 {
                buf.push(0xFF);
            } else if i == 1 {
                buf.push(0xE0);
            } else {
                buf.push(0x00);
            }
            i = i + 1;
        }
        proof {
            assert(buf@ =~= mock_frame(expected as int));
        }
        if self.bytes_encoded <= usize::MAX - expected {
            self.bytes_encoded = self.bytes_encoded + expected;
        } else {
            self.bytes_encoded = usize::MAX;
        }
        Ok(buf)
    }

    /// Flushes the encoder; the mock holds nothing back, so this is
    /// always an empty buffer.
    pub fn flush(&mut self) -> (r: Result<Vec<u8>, EncoderError>)
        ensures
            *final(self) == *old(self),
            match r {
                Ok(buf) => buf@.len() == 0,
                Err(_) => false,
            },
    {
        Ok(Vec::new())
    }

    /// Total bytes encoded since construction.
    pub fn bytes_encoded(&self) -> (r: usize)
        ensures
            r == self.bytes_encoded,
    {
        self.bytes_encoded
    }
}

} // verus!
