use vstd::prelude::*;

use crate::message::{DecodeError, IncomingMessage, OutgoingMessage};
use crate::payload::{FastForwardPayload, PlayPayload, StopPayload};

verus! {

/// Where one connection stands: it registers once, and once closed it stays closed.
#[derive(Debug, Clone, Copy, PartialEq, Eq, Structural)]
pub enum SessionState {
    Unregistered,
    Registered(u128),
    Closed,
}

/// What a connection's reader and writer report to its session.
#[derive(Debug, Clone, Copy, PartialEq, Eq, Structural)]
pub enum Inbound {
    /// A frame decoded into a command.
    Message(IncomingMessage),
    /// A frame that is not a command.
    Undecodable(DecodeError),
    /// Reading from the transport failed.
    ReadFailed,
    /// Writing to the transport failed.
    WriteFailed,
    /// The client closed the connection.
    Ended,
}

/// Why a connection is being closed.
#[derive(Debug, Clone, Copy, PartialEq, Eq, Structural)]
pub enum CloseReason {
    Decode(DecodeError),
    /// A command that the session's state does not allow.
    ProtocolViolation,
    ReadFailed,
    WriteFailed,
    Ended,
}

/// What the connection must do next.
#[derive(Debug, Clone, Copy, PartialEq, Eq, Structural)]
pub enum Step {
    /// Register this connection under a fresh identifier.
    Register,
    /// Deliver `event` to every registered session but `origin`.
    Broadcast { origin: u128, event: OutgoingMessage },
    /// Close the connection, unregistering the identifier if there is one.
    Close { unregister: Option<u128>, reason: CloseReason },
    /// The connection is closed already: nothing is left to do.
    Nothing,
}

impl SessionState {
    /// The identifier this session holds in the registry, if any.
    pub open spec fn registered_id(self) -> Option<u128> {
        match self {
            SessionState::Registered(id) => Some(id),
            _ => None,
        }
    }

    pub fn new() -> (r: Self)
        ensures
            r == SessionState::Unregistered,
    {
        SessionState::Unregistered
    }

    pub fn client_id(&self) -> (r: Option<u128>)
        ensures
            r == self.registered_id(),
    {
        match self {
            SessionState::Registered(id) => Some(*id),
            _ => None,
        }
    }

    /// Records that registration under `client_id` succeeded.
    pub fn complete_registration(&mut self, client_id: u128)
        requires
            *old(self) == SessionState::Unregistered,
        ensures
            *final(self) == SessionState::Registered(client_id),
    {
        *self = SessionState::Registered(client_id);
    }

    /// Enters the closed state, handing back the identifier to unregister.
    pub fn close(&mut self) -> (r: Option<u128>)
        ensures
            *final(self) == SessionState::Closed,
            r == old(self).registered_id(),
    {
        let r = self.client_id();
        *self = SessionState::Closed;
        r
    }
}

/// The event that relays `command` to other sessions: the command's player,
/// position and timestamp, and no client identifier. A registration is not relayed.
pub open spec fn relayed_event(command: IncomingMessage) -> Option<OutgoingMessage> {
    match command {
        IncomingMessage::Registration => None,
        IncomingMessage::Play(p) => Some(
            OutgoingMessage::Play(
                PlayPayload { player: p.player, timestamp: p.timestamp, client_id: None },
            ),
        ),
        IncomingMessage::Stop(p) => Some(
            OutgoingMessage::Stop(StopPayload { player: p.player, client_id: None }),
        ),
        IncomingMessage::FastForward(p) => Some(
            OutgoingMessage::FastForward(
                FastForwardPayload {
                    player: p.player,
                    target_position: p.target_position,
                    timestamp: p.timestamp,
                    client_id: None,
                },
            ),
        ),
    }
}

/// Why a connection closes on an input that is not a command.
pub open spec fn failure_reason(input: Inbound) -> CloseReason {
    match input {
        Inbound::Undecodable(e) => CloseReason::Decode(e),
        Inbound::ReadFailed => CloseReason::ReadFailed,
        Inbound::WriteFailed => CloseReason::WriteFailed,
        _ => CloseReason::Ended,
    }
}

/// The step a session in `state` takes on a decoded command: it registers
/// once, relays playback commands once registered, and any command that its
/// state does not allow closes the connection.
pub open spec fn command_step(state: SessionState, command: IncomingMessage) -> Step {
    match state {
        SessionState::Closed => Step::Nothing,
        SessionState::Unregistered => if command == IncomingMessage::Registration {
            Step::Register
        } else {
            Step::Close { unregister: None, reason: CloseReason::ProtocolViolation }
        },
        SessionState::Registered(id) => match relayed_event(command) {
            Some(event) => Step::Broadcast { origin: id, event },
            None => Step::Close { unregister: Some(id), reason: CloseReason::ProtocolViolation },
        },
    }
}

} // verus!
