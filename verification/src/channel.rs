//! Trusted declarations for the inbound control channel. The pipeline's
//! two channels are crossbeam channels; the compositor polls the
//! inbound one between frames.

use vstd::prelude::*;

use crate::messages::ToFfmpegMessage;

verus! {

#[verifier::external_type_specification]
#[verifier::external_body]
#[verifier::reject_recursive_types(T)]
pub struct ExReceiver<T>(crossbeam_channel::Receiver<T>);

/// Relies on crossbeam_channel::Receiver::try_recv: returns a pending
/// message without blocking, or nothing when the channel is empty or
/// disconnected. What arrives depends on the sending threads, so
/// nothing more can be promised of the result; the compositor states
/// what holds whichever command came back.
#[verifier::external_body]
pub fn try_recv_command(rx: &crossbeam_channel::Receiver<ToFfmpegMessage>) -> (r: Option<
    ToFfmpegMessage,
>) {
    rx.try_recv().ok()
}

} // verus!
