//! Byte accounting of one HTTP stream output.
//!
//! The streamer here is the bookkeeping half of the HTTP output: the port
//! it serves on and the running total of bytes handed to clients. The
//! network half — binding, accepting and fanning bytes out to connected
//! clients — runs outside the library and feeds this accounting.

use vstd::prelude::*;
use crate::text::concat_str;

verus! {

/// An error raised by the HTTP streamer.
#[derive(Debug)]
pub enum StreamError {
    /// The server could not bind or start.
    ServerStart(String),
    /// Sending to clients failed.
    Send(String),
}

/// The human-readable text of a stream error.
pub open spec fn stream_error_text(e: StreamError) -> Seq<char> {
    match e {
        StreamError::ServerStart(s) => "Failed to start HTTP server: "@ + s@,
        StreamError::Send(s) => "Failed to send data: "@ + s@,
    }
}

impl StreamError {
    /// Renders the error for logs and admin responses.
    pub fn message(&self) -> (r: String)
        ensures
            r@ == stream_error_text(*self),
    {
        match self {
            StreamError::ServerStart(s) => concat_str("Failed to start HTTP server: ", s.as_str()),
            StreamError::Send(s) => concat_str("Failed to send data: ", s.as_str()),
        }
    }
}

/// The accounting of one output's HTTP stream.
pub struct HttpStreamer {
    /// TCP port the stream is served on.
    pub port: u16,
    /// Total bytes enqueued to clients (saturating).
    pub bytes_sent: usize,
}

impl HttpStreamer {
    /// A streamer for the given port, with nothing sent yet.
    pub fn new(port: u16) -> (s: HttpStreamer)
        ensures
            s.port == port,
            s.bytes_sent == 0,
    {
        HttpStreamer { port, bytes_sent: 0 }
    }

    /// The port this stream is served on.
    pub fn port(&self) -> (p: u16)
        ensures
            p == self.port,
    {
        self.port
    }

    /// Accounts one buffer handed to the connected clients. Per-client
    /// delivery never fails the pipeline — a slow client is dropped by
    /// the serving side instead — so this always succeeds.
    pub fn send(&mut self, data: &Vec<u8>) -> (r: Result<(), StreamError>)
        ensures
            r is Ok,
            final(self).port == old(self).port,
            final(self).bytes_sent == if old(self).bytes_sent + data@.len() <= usize::MAX {
                old(self).bytes_sent + data@.len()
            } else {
                usize::MAX as int
            },
    {
        let n = data.len();
        if self.bytes_sent <= usize::MAX - n {
            self.bytes_sent = self.bytes_sent + n;
        } else {
            self.bytes_sent = usize::MAX;
        }
        Ok(())
    }

    /// Total bytes sent since construction.
    pub fn bytes_sent(&self) -> (r: usize)
        ensures
            r == self.bytes_sent,
    {
        self.bytes_sent
    }
}

} // verus!
