use deck_relay::codec::encode;
use deck_relay::message::OutgoingMessage;
use deck_relay::payload::{
    FastForwardPayload, Milliseconds, PlayPayload, PlayerID, RegistrationSuccessPayload,
    StopPayload, Timestamp,
};

#[test]
fn encodes_registration_success_with_hyphenated_id() {
    let event = OutgoingMessage::RegistrationSuccess(RegistrationSuccessPayload::new(
        0xa1a2a3a4b1b2c1c2d1d2d3d4d5d6d7d8,
    ));
    assert_eq!(
        encode(&event),
        "{\"type\":\"registrationSuccess\",\"payload\":{\"clientId\":\"a1a2a3a4-b1b2-c1c2-d1d2-d3d4d5d6d7d8\"}}"
    );
}

#[test]
fn encodes_play() {
    let event = OutgoingMessage::Play(PlayPayload::new(PlayerID(1), Timestamp(1690000000000), None));
    assert_eq!(
        encode(&event),
        "{\"type\":\"play\",\"payload\":{\"player\":1,\"timestamp\":1690000000000}}"
    );
}

#[test]
fn encodes_stop() {
    let event = OutgoingMessage::Stop(StopPayload::new(PlayerID(0), None));
    assert_eq!(encode(&event), "{\"type\":\"stop\",\"payload\":{\"player\":0}}");
}

#[test]
fn encodes_fast_forward() {
    let event = OutgoingMessage::FastForward(FastForwardPayload::new(
        PlayerID(2),
        Milliseconds(90500),
        Timestamp(1690000000123),
        None,
    ));
    assert_eq!(
        encode(&event),
        "{\"type\":\"fastForward\",\"payload\":{\"player\":2,\"targetPosition\":90500,\"timestamp\":1690000000123}}"
    );
}

#[test]
fn encodes_extreme_numbers() {
    let event = OutgoingMessage::FastForward(FastForwardPayload::new(
        PlayerID(u32::MAX),
        Milliseconds(u32::MAX),
        Timestamp(i64::MIN),
        None,
    ));
    assert_eq!(
        encode(&event),
        "{\"type\":\"fastForward\",\"payload\":{\"player\":4294967295,\"targetPosition\":4294967295,\"timestamp\":-9223372036854775808}}"
    );
    let event = OutgoingMessage::Play(PlayPayload::new(PlayerID(10), Timestamp(-1), None));
    assert_eq!(
        encode(&event),
        "{\"type\":\"play\",\"payload\":{\"player\":10,\"timestamp\":-1}}"
    );
}

#[test]
fn never_encodes_a_client_id() {
    let event = OutgoingMessage::Stop(StopPayload::new(PlayerID(3), Some(1)));
    assert_eq!(encode(&event), "{\"type\":\"stop\",\"payload\":{\"player\":3}}");
}

#[test]
fn encodes_small_identifiers_with_leading_zeros() {
    let event = OutgoingMessage::RegistrationSuccess(RegistrationSuccessPayload::new(0xff));
    assert_eq!(
        encode(&event),
        "{\"type\":\"registrationSuccess\",\"payload\":{\"clientId\":\"00000000-0000-0000-0000-0000000000ff\"}}"
    );
}

#[test]
fn encoded_events_read_back_as_the_same_json() {
    let event = OutgoingMessage::FastForward(FastForwardPayload::new(
        PlayerID(7),
        Milliseconds(1234),
        Timestamp(1690000000000),
        None,
    ));
    let text = encode(&event);
    let value: serde_json::Value = serde_json::from_str(&text).unwrap();
    assert_eq!(value["type"].as_str(), Some("fastForward"));
    assert_eq!(value["payload"]["player"].as_u64(), Some(7));
    assert_eq!(value["payload"]["targetPosition"].as_u64(), Some(1234));
    assert_eq!(value["payload"]["timestamp"].as_i64(), Some(1690000000000));
    assert_eq!(value["payload"].as_object().map(|o| o.len()), Some(3));

    let id: u128 = 0x0123456789abcdef0123456789abcdef;
    let text = encode(&OutgoingMessage::RegistrationSuccess(RegistrationSuccessPayload::new(id)));
    let value: serde_json::Value = serde_json::from_str(&text).unwrap();
    let parsed = uuid::Uuid::parse_str(value["payload"]["clientId"].as_str().unwrap()).unwrap();
    assert_eq!(parsed.as_u128(), id);
}
