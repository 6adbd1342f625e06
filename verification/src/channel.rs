//! Bounded frame queues between input producers and the mixer.
//!
//! The queues come from the `crossbeam-channel` crate. What a receive
//! returns depends on what other threads have sent, so the wrappers
//! promise nothing about the data; the mixer is verified to handle every
//! possible outcome.

use vstd::prelude::*;

verus! {

/// How many frame buffers an input queue holds before producers back off.
pub const INPUT_QUEUE_DEPTH: usize = 10;

#[verifier::external_type_specification]
#[verifier::external_body]
#[verifier::reject_recursive_types(T)]
pub struct ExSender<T>(crossbeam_channel::Sender<T>);

#[verifier::external_type_specification]
#[verifier::external_body]
#[verifier::reject_recursive_types(T)]
pub struct ExReceiver<T>(crossbeam_channel::Receiver<T>);

/// Relies on crossbeam_channel::bounded: a connected sender/receiver pair
/// over a queue of `INPUT_QUEUE_DEPTH` frame buffers.
#[verifier::external_body]
pub(crate) fn frame_channel() -> (crossbeam_channel::Sender<Vec<i16>>, crossbeam_channel::Receiver<
    Vec<i16>,
>) {
    crossbeam_channel::bounded(INPUT_QUEUE_DEPTH)
}

/// Relies on crossbeam_channel::Receiver::try_recv: hands back a queued
/// buffer when one is ready, nothing when the queue is empty or every
/// sender is gone. Which of the two happens, and what the buffer holds,
/// depends on the producer threads, so nothing is promised of the result.
#[verifier::external_body]
pub(crate) fn try_recv_frames(r: &crossbeam_channel::Receiver<Vec<i16>>) -> Option<Vec<i16>> {
    r.try_recv().ok()
}

} // verus!
