use vstd::prelude::*;

verus! {

/// A playback channel ("deck") number; opaque to the relay.
#[derive(Debug, Clone, Copy, PartialEq, Eq, Structural)]
pub struct PlayerID(pub u32);

/// A position within a track, in milliseconds.
#[derive(Debug, Clone, Copy, PartialEq, Eq, Structural)]
pub struct Milliseconds(pub u32);

/// An instant, as milliseconds since the Unix epoch (UTC).
#[derive(Debug, Clone, Copy, PartialEq, Eq, Structural)]
pub struct Timestamp(pub i64);

/// Tells a freshly registered client the identifier the relay gave it.
#[derive(Debug, Clone, Copy, PartialEq, Eq, Structural)]
pub struct RegistrationSuccessPayload {
    pub client_id: u128,
}

impl RegistrationSuccessPayload {
    pub fn new(client_id: u128) -> (r: Self)
        ensures
            r.client_id == client_id,
    {
        RegistrationSuccessPayload { client_id }
    }
}

/// Start playback on `player` at `timestamp`.
#[derive(Debug, Clone, Copy, PartialEq, Eq, Structural)]
pub struct PlayPayload {
    pub player: PlayerID,
    pub timestamp: Timestamp,
    pub client_id: Option<u128>,
}

impl PlayPayload {
    pub fn new(player: PlayerID, timestamp: Timestamp, client_id: Option<u128>) -> (r: Self)
        ensures
            r.player == player,
            r.timestamp == timestamp,
            r.client_id == client_id,
    {
        PlayPayload { player, timestamp, client_id }
    }
}

/// Stop playback on `player`.
#[derive(Debug, Clone, Copy, PartialEq, Eq, Structural)]
pub struct StopPayload {
    pub player: PlayerID,
    pub client_id: Option<u128>,
}

impl StopPayload {
    pub fn new(player: PlayerID, client_id: Option<u128>) -> (r: Self)
        ensures
            r.player == player,
            r.client_id == client_id,
    {
        StopPayload { client_id, player }
    }
}

/// Jump `player` to `target_position`, as decided at `timestamp`.
#[derive(Debug, Clone, Copy, PartialEq, Eq, Structural)]
pub struct FastForwardPayload {
    pub player: PlayerID,
    pub target_position: Milliseconds,
    pub timestamp: Timestamp,
    pub client_id: Option<u128>,
}

impl FastForwardPayload {
    pub fn new(
        player: PlayerID,
        target_position: Milliseconds,
        timestamp: Timestamp,
        client_id: Option<u128>,
    ) -> (r: Self)
        ensures
            r.player == player,
            r.target_position == target_position,
            r.timestamp == timestamp,
            r.client_id == client_id,
    {
        FastForwardPayload { player, target_position, timestamp, client_id }
    }
}

} // verus!
