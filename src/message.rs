use vstd::prelude::*;

use crate::payload::{FastForwardPayload, PlayPayload, RegistrationSuccessPayload, StopPayload};

verus! {

/// A command received from a client.
#[derive(Debug, Clone, Copy, PartialEq, Eq, Structural)]
pub enum IncomingMessage {
    Registration,
    Play(PlayPayload),
    Stop(StopPayload),
    FastForward(FastForwardPayload),
}

/// An event sent to clients.
#[derive(Debug, Clone, Copy, PartialEq, Eq, Structural)]
pub enum OutgoingMessage {
    RegistrationSuccess(RegistrationSuccessPayload),
    Play(PlayPayload),
    Stop(StopPayload),
    FastForward(FastForwardPayload),
}

/// Why an inbound frame could not be turned into a command.
#[derive(Debug, Clone, Copy, PartialEq, Eq, Structural)]
pub enum DecodeError {
    /// The frame was not a text frame.
    UnsupportedFrame,
    /// The text was not a well-formed command.
    Malformed,
}

} // verus!
