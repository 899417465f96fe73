use vstd::prelude::*;

use crate::message::{DecodeError, IncomingMessage, OutgoingMessage};
use crate::session::relayed_event;
use crate::payload::{FastForwardPayload, Milliseconds, PlayPayload, PlayerID, StopPayload, Timestamp};

verus! {

/// A parsed JSON document, as the relay reads client frames.
#[derive(Debug)]
pub enum JsonValue {
    Null,
    Bool(bool),
    /// A number written without fraction or exponent.
    Integer(i128),
    /// Any other number.
    Fraction,
    Text(String),
    Array(Vec<JsonValue>),
    /// An object's members, in document order.
    Object(Vec<(String, JsonValue)>),
}

/// The value of the first member of `fields` named `key`.
pub open spec fn member(fields: Seq<(String, JsonValue)>, key: Seq<char>) -> Option<JsonValue>
    decreases fields.len(),
{
    if fields.len() == 0 {
        None
    } else if fields[0].0@ == key {
        Some(fields[0].1)
    } else {
        member(fields.drop_first(), key)
    }
}

/// The member `key` read as an unsigned 32-bit integer, if it is one.
pub open spec fn u32_field(fields: Seq<(String, JsonValue)>, key: Seq<char>) -> Option<u32> {
    match member(fields, key) {
        Some(JsonValue::Integer(n)) => if 0 <= n <= u32::MAX {
            Some(n as u32)
        } else {
            None
        },
        _ => None,
    }
}

/// The member `key` read as a signed 64-bit integer, if it is one.
pub open spec fn i64_field(fields: Seq<(String, JsonValue)>, key: Seq<char>) -> Option<i64> {
    match member(fields, key) {
        Some(JsonValue::Integer(n)) => if i64::MIN <= n <= i64::MAX {
            Some(n as i64)
        } else {
            None
        },
        _ => None,
    }
}

/// The playback command tagged `tag` whose payload members are `payload`,
/// if every member it needs is there with the right type. Other members are
/// ignored, a client identifier among them.
pub open spec fn playback_command(tag: Seq<char>, payload: Seq<(String, JsonValue)>) -> Option<
    IncomingMessage,
> {
    let player = u32_field(payload, "player"@);
    if tag == "play"@ {
        match (player, i64_field(payload, "timestamp"@)) {
            (Some(p), Some(t)) => Some(
                IncomingMessage::Play(
                    PlayPayload { player: PlayerID(p), timestamp: Timestamp(t), client_id: None },
                ),
            ),
            _ => None,
        }
    } else if tag == "stop"@ {
        match player {
            Some(p) => Some(
                IncomingMessage::Stop(StopPayload { player: PlayerID(p), client_id: None }),
            ),
            None => None,
        }
    } else if tag == "fastForward"@ {
        match (player, u32_field(payload, "targetPosition"@), i64_field(payload, "timestamp"@)) {
            (Some(p), Some(pos), Some(t)) => Some(
                IncomingMessage::FastForward(
                    FastForwardPayload {
                        player: PlayerID(p),
                        target_position: Milliseconds(pos),
                        timestamp: Timestamp(t),
                        client_id: None,
                    },
                ),
            ),
            _ => None,
        }
    } else {
        None
    }
}

/// The command a client frame's document stands for: an object whose `type`
/// member names the command, with a `payload` object for every command but
/// `registration`, which takes none (or `null`).
pub open spec fn command_of(document: JsonValue) -> Result<IncomingMessage, DecodeError> {
    match document {
        JsonValue::Object(fields) => match member(fields@, "type"@) {
            Some(JsonValue::Text(tag)) => if tag@ == "registration"@ {
                match member(fields@, "payload"@) {
                    None => Ok(IncomingMessage::Registration),
                    Some(JsonValue::Null) => Ok(IncomingMessage::Registration),
                    _ => Err(DecodeError::Malformed),
                }
            } else {
                match member(fields@, "payload"@) {
                    Some(JsonValue::Object(payload)) => match playback_command(tag@, payload@) {
                        Some(command) => Ok(command),
                        None => Err(DecodeError::Malformed),
                    },
                    _ => Err(DecodeError::Malformed),
                }
            },
            _ => Err(DecodeError::Malformed),
        },
        _ => Err(DecodeError::Malformed),
    }
}

fn find_member<'a>(fields: &'a Vec<(String, JsonValue)>, key: &str) -> (r: Option<&'a JsonValue>)
    ensures
        match r {
            Some(v) => member(fields@, key@) == Some(*v),
            None => member(fields@, key@) is None,
        },
{
    let wanted = String::from_str(key);
    let mut i: usize = 0;
    assert(fields@.subrange(0, fields@.len() as int) =~= fields@);
    while i < fields.len()
        invariant
            i <= fields@.len(),
            wanted@ == key@,
            member(fields@, key@) == member(fields@.subrange(i as int, fields@.len() as int), key@),
        decreases fields@.len() - i,
    {
        assert(fields@.subrange(i as int, fields@.len() as int).drop_first() =~= fields@.subrange(
            i + 1,
            fields@.len() as int,
        ));
        assert(fields@.subrange(i as int, fields@.len() as int)[0] == fields@[i as int]);
        if fields[i].0 == wanted {
            return Some(&fields[i].1);
        }
        i = i + 1;
    }
    None
}

fn read_u32(fields: &Vec<(String, JsonValue)>, key: &str) -> (r: Option<u32>)
    ensures
        r == u32_field(fields@, key@),
{
    match find_member(fields, key) {
        Some(JsonValue::Integer(n)) => if 0 <= *n && *n <= u32::MAX as i128 {
            Some(*n as u32)
        } else {
            None
        },
        _ => None,
    }
}

fn read_i64(fields: &Vec<(String, JsonValue)>, key: &str) -> (r: Option<i64>)
    ensures
        r == i64_field(fields@, key@),
{
    match find_member(fields, key) {
        Some(JsonValue::Integer(n)) => if i64::MIN as i128 <= *n && *n <= i64::MAX as i128 {
            Some(*n as i64)
        } else {
            None
        },
        _ => None,
    }
}

fn read_playback(tag: &String, payload: &Vec<(String, JsonValue)>) -> (r: Option<IncomingMessage>)
    ensures
        r == playback_command(tag@, payload@),
{
    let player = read_u32(payload, "player");
    if *tag == String::from_str("play") {
        match (player, read_i64(payload, "timestamp")) {
            (Some(p), Some(t)) => Some(
                IncomingMessage::Play(PlayPayload::new(PlayerID(p), Timestamp(t), None)),
            ),
            _ => None,
        }
    } else if *tag == String::from_str("stop") {
        match player {
            Some(p) => Some(IncomingMessage::Stop(StopPayload::new(PlayerID(p), None))),
            None => None,
        }
    } else if *tag == String::from_str("fastForward") {
        match (player, read_u32(payload, "targetPosition"), read_i64(payload, "timestamp")) {
            (Some(p), Some(pos), Some(t)) => Some(
                IncomingMessage::FastForward(
                    FastForwardPayload::new(PlayerID(p), Milliseconds(pos), Timestamp(t), None),
                ),
            ),
            _ => None,
        }
    } else {
        None
    }
}

/// Reads the command that a client frame's document stands for.
pub fn decode(document: &JsonValue) -> (r: Result<IncomingMessage, DecodeError>)
    ensures
        r == command_of(*document),
{
    match document {
        JsonValue::Object(fields) => match find_member(fields, "type") {
            Some(JsonValue::Text(tag)) => {
                if *tag == String::from_str("registration") {
                    match find_member(fields, "payload") {
                        None => Ok(IncomingMessage::Registration),
                        Some(JsonValue::Null) => Ok(IncomingMessage::Registration),
                        _ => Err(DecodeError::Malformed),
                    }
                } else {
                    match find_member(fields, "payload") {
                        Some(JsonValue::Object(payload)) => match read_playback(tag, payload) {
                            Some(command) => Ok(command),
                            None => Err(DecodeError::Malformed),
                        },
                        _ => Err(DecodeError::Malformed),
                    }
                }
            },
            _ => Err(DecodeError::Malformed),
        },
        _ => Err(DecodeError::Malformed),
    }
}

/// `document` is an object whose `type` member is the text `tag` and whose
/// `payload` member is an object with the members `payload`.
pub open spec fn tagged_object(document: JsonValue, tag: Seq<char>, payload: spec_fn(
    Seq<(String, JsonValue)>,
) -> bool) -> bool {
    &&& document matches JsonValue::Object(fields)
    &&& member(fields@, "type"@) matches Some(JsonValue::Text(t))
    &&& t@ == tag
    &&& member(fields@, "payload"@) matches Some(JsonValue::Object(p))
    &&& payload(p@)
}

/// `document` holds what the wire text of a playback event writes: the
/// event's tag, and a payload with each of its fields under its wire name.
pub open spec fn holds_event(document: JsonValue, event: OutgoingMessage) -> bool {
    match event {
        OutgoingMessage::Play(e) => tagged_object(
            document,
            "play"@,
            |p: Seq<(String, JsonValue)>|
                member(p, "player"@) == Some(JsonValue::Integer(e.player.0 as i128)) && member(
                    p,
                    "timestamp"@,
                ) == Some(JsonValue::Integer(e.timestamp.0 as i128)),
        ),
        OutgoingMessage::Stop(e) => tagged_object(
            document,
            "stop"@,
            |p: Seq<(String, JsonValue)>|
                member(p, "player"@) == Some(JsonValue::Integer(e.player.0 as i128)),
        ),
        OutgoingMessage::FastForward(e) => tagged_object(
            document,
            "fastForward"@,
            |p: Seq<(String, JsonValue)>|
                member(p, "player"@) == Some(JsonValue::Integer(e.player.0 as i128)) && member(
                    p,
                    "targetPosition"@,
                ) == Some(JsonValue::Integer(e.target_position.0 as i128)) && member(
                    p,
                    "timestamp"@,
                ) == Some(JsonValue::Integer(e.timestamp.0 as i128)),
        ),
        OutgoingMessage::RegistrationSuccess(_) => false,
    }
}

/// The identifier a playback event carries, if any.
pub open spec fn event_client_id(event: OutgoingMessage) -> Option<u128> {
    match event {
        OutgoingMessage::Play(e) => e.client_id,
        OutgoingMessage::Stop(e) => e.client_id,
        OutgoingMessage::FastForward(e) => e.client_id,
        OutgoingMessage::RegistrationSuccess(e) => Some(e.client_id),
    }
}

/// A playback event read back: a document holding an event that carries no
/// client identifier decodes to a command, and relaying that command gives
/// the same event again.
pub proof fn lemma_event_document_round_trip(event: OutgoingMessage, document: JsonValue)
    requires
        event_client_id(event) is None,
        holds_event(document, event),
    ensures
        command_of(document) is Ok,
        relayed_event(command_of(document)->Ok_0) == Some(event),
{
    reveal_strlit("registration");
    reveal_strlit("play");
    reveal_strlit("stop");
    reveal_strlit("fastForward");
    assert("play"@.len() != "registration"@.len());
    assert("stop"@.len() != "registration"@.len());
    assert("play"@ != "registration"@);
    assert("stop"@ != "registration"@);
    assert("fastForward"@ != "registration"@);
    assert("stop"@[0] != "play"@[0]);
    assert("stop"@ != "play"@);
    assert("fastForward"@ != "play"@);
    assert("fastForward"@ != "stop"@);
    if let JsonValue::Object(fields) = document {
        if let Some(JsonValue::Object(p)) = member(fields@, "payload"@) {
            match event {
                OutgoingMessage::Play(e) => {
                    assert(u32_field(p@, "player"@) == Some(e.player.0));
                    assert(i64_field(p@, "timestamp"@) == Some(e.timestamp.0));
                    assert(playback_command("play"@, p@) == Some(
                        IncomingMessage::Play(
                            PlayPayload { player: e.player, timestamp: e.timestamp, client_id: None },
                        ),
                    ));
                },
                OutgoingMessage::Stop(e) => {
                    assert(u32_field(p@, "player"@) == Some(e.player.0));
                    assert(playback_command("stop"@, p@) == Some(
                        IncomingMessage::Stop(StopPayload { player: e.player, client_id: None }),
                    ));
                },
                OutgoingMessage::FastForward(e) => {
                    assert(u32_field(p@, "player"@) == Some(e.player.0));
                    assert(u32_field(p@, "targetPosition"@) == Some(e.target_position.0));
                    assert(i64_field(p@, "timestamp"@) == Some(e.timestamp.0));
                },
                OutgoingMessage::RegistrationSuccess(_) => {},
            }
        }
    }
}

} // verus!
