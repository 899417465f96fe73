use deck_relay::message::{DecodeError, IncomingMessage, OutgoingMessage};
use deck_relay::payload::{FastForwardPayload, Milliseconds, PlayPayload, PlayerID, StopPayload, Timestamp};
use deck_relay::server::{handle_incoming_message, next_step};
use deck_relay::session::{CloseReason, Inbound, SessionState, Step};

fn play() -> IncomingMessage {
    IncomingMessage::Play(PlayPayload::new(PlayerID(1), Timestamp(1690000000000), Some(99)))
}

#[test]
fn registration_is_accepted_once() {
    assert_eq!(
        handle_incoming_message(&SessionState::Unregistered, IncomingMessage::Registration),
        Step::Register
    );
    assert_eq!(
        handle_incoming_message(&SessionState::Registered(5), IncomingMessage::Registration),
        Step::Close { unregister: Some(5), reason: CloseReason::ProtocolViolation }
    );
}

#[test]
fn playback_before_registration_closes() {
    let stop = IncomingMessage::Stop(StopPayload::new(PlayerID(1), None));
    assert_eq!(
        handle_incoming_message(&SessionState::Unregistered, stop),
        Step::Close { unregister: None, reason: CloseReason::ProtocolViolation }
    );
}

#[test]
fn playback_is_relayed_without_client_id() {
    assert_eq!(
        handle_incoming_message(&SessionState::Registered(7), play()),
        Step::Broadcast {
            origin: 7,
            event: OutgoingMessage::Play(PlayPayload::new(PlayerID(1), Timestamp(1690000000000), None)),
        }
    );
    let ff = IncomingMessage::FastForward(FastForwardPayload::new(
        PlayerID(2),
        Milliseconds(3000),
        Timestamp(17),
        Some(4),
    ));
    assert_eq!(
        handle_incoming_message(&SessionState::Registered(7), ff),
        Step::Broadcast {
            origin: 7,
            event: OutgoingMessage::FastForward(FastForwardPayload::new(
                PlayerID(2),
                Milliseconds(3000),
                Timestamp(17),
                None,
            )),
        }
    );
    let stop = IncomingMessage::Stop(StopPayload::new(PlayerID(3), Some(4)));
    assert_eq!(
        handle_incoming_message(&SessionState::Registered(8), stop),
        Step::Broadcast { origin: 8, event: OutgoingMessage::Stop(StopPayload::new(PlayerID(3), None)) }
    );
}

#[test]
fn closed_sessions_do_nothing() {
    assert_eq!(handle_incoming_message(&SessionState::Closed, play()), Step::Nothing);
    assert_eq!(next_step(&SessionState::Closed, Inbound::ReadFailed), Step::Nothing);
}

#[test]
fn every_failure_closes_and_unregisters() {
    let registered = SessionState::Registered(11);
    assert_eq!(
        next_step(&registered, Inbound::Undecodable(DecodeError::Malformed)),
        Step::Close { unregister: Some(11), reason: CloseReason::Decode(DecodeError::Malformed) }
    );
    assert_eq!(
        next_step(&registered, Inbound::ReadFailed),
        Step::Close { unregister: Some(11), reason: CloseReason::ReadFailed }
    );
    assert_eq!(
        next_step(&registered, Inbound::WriteFailed),
        Step::Close { unregister: Some(11), reason: CloseReason::WriteFailed }
    );
    assert_eq!(
        next_step(&SessionState::Unregistered, Inbound::Ended),
        Step::Close { unregister: None, reason: CloseReason::Ended }
    );
    assert_eq!(
        next_step(&SessionState::Unregistered, Inbound::Undecodable(DecodeError::UnsupportedFrame)),
        Step::Close { unregister: None, reason: CloseReason::Decode(DecodeError::UnsupportedFrame) }
    );
    assert_eq!(next_step(&registered, Inbound::Message(play())), handle_incoming_message(&registered, play()));
}

#[test]
fn session_lifecycle() {
    let mut state = SessionState::new();
    assert_eq!(state, SessionState::Unregistered);
    assert_eq!(state.client_id(), None);
    state.complete_registration(42);
    assert_eq!(state, SessionState::Registered(42));
    assert_eq!(state.client_id(), Some(42));
    assert_eq!(state.close(), Some(42));
    assert_eq!(state, SessionState::Closed);
    let mut never = SessionState::new();
    assert_eq!(never.close(), None);
}
