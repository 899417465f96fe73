use deck_relay::codec::encode;
use deck_relay::json::{decode, JsonValue};
use deck_relay::message::{DecodeError, IncomingMessage, OutgoingMessage};
use deck_relay::payload::{
    FastForwardPayload, Milliseconds, PlayPayload, PlayerID, StopPayload, Timestamp,
};
use deck_relay::server::handle_incoming_message;
use deck_relay::session::{SessionState, Step};
use serde_json::Value;

fn document(value: Value) -> JsonValue {
    match value {
        Value::Null => JsonValue::Null,
        Value::Bool(b) => JsonValue::Bool(b),
        Value::Number(n) => match (n.as_i64(), n.as_u64()) {
            (Some(i), _) => JsonValue::Integer(i128::from(i)),
            (None, Some(u)) => JsonValue::Integer(i128::from(u)),
            (None, None) => JsonValue::Fraction,
        },
        Value::String(s) => JsonValue::Text(s),
        Value::Array(items) => JsonValue::Array(items.into_iter().map(document).collect()),
        Value::Object(members) => {
            JsonValue::Object(members.into_iter().map(|(k, v)| (k, document(v))).collect())
        }
    }
}

fn read(text: &str) -> Result<IncomingMessage, DecodeError> {
    decode(&document(serde_json::from_str(text).unwrap()))
}

#[test]
fn decodes_registration() {
    assert_eq!(read("{\"type\":\"registration\"}"), Ok(IncomingMessage::Registration));
    assert_eq!(
        read("{\"type\":\"registration\",\"payload\":null}"),
        Ok(IncomingMessage::Registration)
    );
    assert_eq!(
        read("{\"type\":\"registration\",\"payload\":{\"player\":1}}"),
        Err(DecodeError::Malformed)
    );
}

#[test]
fn decodes_playback_commands() {
    assert_eq!(
        read("{\"type\":\"play\",\"payload\":{\"player\":1,\"timestamp\":1690000000000}}"),
        Ok(IncomingMessage::Play(PlayPayload::new(PlayerID(1), Timestamp(1690000000000), None)))
    );
    assert_eq!(
        read(" { \"payload\" : { \"player\" : 4 } , \"type\" : \"stop\" } "),
        Ok(IncomingMessage::Stop(StopPayload::new(PlayerID(4), None)))
    );
    assert_eq!(
        read("{\"type\":\"fastForward\",\"payload\":{\"timestamp\":-5,\"targetPosition\":60000,\"player\":2,\"clientId\":\"a1a2a3a4-b1b2-c1c2-d1d2-d3d4d5d6d7d8\"}}"),
        Ok(IncomingMessage::FastForward(FastForwardPayload::new(
            PlayerID(2),
            Milliseconds(60000),
            Timestamp(-5),
            None,
        )))
    );
}

#[test]
fn rejects_malformed_commands() {
    let cases = [
        "[1,2]",
        "{\"payload\":{\"player\":1}}",
        "{\"type\":\"rewind\",\"payload\":{\"player\":1}}",
        "{\"type\":7,\"payload\":{\"player\":1}}",
        "{\"type\":\"stop\"}",
        "{\"type\":\"stop\",\"payload\":{}}",
        "{\"type\":\"stop\",\"payload\":{\"player\":\"1\"}}",
        "{\"type\":\"stop\",\"payload\":{\"player\":1.5}}",
        "{\"type\":\"stop\",\"payload\":{\"player\":-1}}",
        "{\"type\":\"stop\",\"payload\":{\"player\":4294967296}}",
        "{\"type\":\"play\",\"payload\":{\"player\":1}}",
        "{\"type\":\"play\",\"payload\":{\"player\":1,\"timestamp\":9223372036854775808}}",
        "{\"type\":\"fastForward\",\"payload\":{\"player\":1,\"timestamp\":3}}",
        "{\"type\":\"Play\",\"payload\":{\"player\":1,\"timestamp\":3}}",
    ];
    for case in cases {
        assert_eq!(read(case), Err(DecodeError::Malformed), "{}", case);
    }
}

#[test]
fn accepts_the_widest_values() {
    assert_eq!(
        read("{\"type\":\"play\",\"payload\":{\"player\":4294967295,\"timestamp\":-9223372036854775808}}"),
        Ok(IncomingMessage::Play(PlayPayload::new(PlayerID(u32::MAX), Timestamp(i64::MIN), None)))
    );
}

#[test]
fn relayed_events_read_back_as_their_commands() {
    let commands = [
        IncomingMessage::Play(PlayPayload::new(PlayerID(1), Timestamp(1690000000000), None)),
        IncomingMessage::Stop(StopPayload::new(PlayerID(0), None)),
        IncomingMessage::FastForward(FastForwardPayload::new(
            PlayerID(u32::MAX),
            Milliseconds(90500),
            Timestamp(-12),
            None,
        )),
    ];
    for command in commands {
        let event: OutgoingMessage = match handle_incoming_message(&SessionState::Registered(1), command) {
            Step::Broadcast { event, .. } => event,
            other => panic!("unexpected step {:?}", other),
        };
        assert_eq!(read(&encode(&event)), Ok(command));
    }
}
