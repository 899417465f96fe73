use vstd::prelude::*;

use tokio::sync::mpsc::UnboundedSender;

use crate::client::{fresh_client, Client, DeliveryError};
use crate::client_pool::{
    lemma_push_contains, lemma_push_fresh_no_duplicates, lemma_without_contains, without, ClientPool,
};
use crate::codec::event_text;
use crate::message::{IncomingMessage, OutgoingMessage};
use crate::payload::{FastForwardPayload, PlayPayload, RegistrationSuccessPayload, StopPayload};
use crate::session::{command_step, failure_reason, CloseReason, Inbound, SessionState, Step};

verus! {

/// A completed registration.
pub struct Registration {
    pub client_id: u128,
    /// Whether the registration notice reached the new session's queue.
    pub confirmation: Result<(), DeliveryError>,
}

/// The relay's shared state: the registry of live sessions, and every
/// identifier it has ever given out, so that none is given out twice.
pub struct Relay {
    pub pool: ClientPool,
    pub issued: Vec<u128>,
}

impl Relay {
    pub open spec fn wf(&self) -> bool {
        &&& self.pool.wf()
        &&& self.issued@.no_duplicates()
        &&& forall|id: u128| #[trigger] self.pool.contains(id) ==> self.issued@.contains(id)
    }

    pub fn new() -> (r: Self)
        ensures
            r.wf(),
            r.pool.clients@ == Seq::<Client>::empty(),
            r.issued@ == Seq::<u128>::empty(),
    {
        let r = Relay { pool: ClientPool::new(), issued: Vec::new() };
        assert(r.pool.ids() =~= Seq::<u128>::empty());
        r
    }

    fn was_issued(&self, id: u128) -> (r: bool)
        ensures
            r == self.issued@.contains(id),
    {
        let mut i: usize = 0;
        while i < self.issued.len()
            invariant
                i <= self.issued@.len(),
                forall|j: int| 0 <= j < i ==> self.issued@[j] != id,
            decreases self.issued@.len() - i,
        {
            if self.issued[i] == id {
                return true;
            }
            i = i + 1;
        }
        false
    }

    /// Registers a new session under `client_id`, then tells it that
    /// identifier. An identifier given out before is refused and nothing
    /// changes. A failed notice does not undo the registration.
    pub fn register_with_id(&mut self, client_id: u128, sender: UnboundedSender<String>) -> (r:
        Option<Registration>)
        requires
            old(self).wf(),
        ensures
            final(self).wf(),
            r is Some <==> !old(self).issued@.contains(client_id),
            match r {
                Some(reg) => {
                    &&& reg.client_id == client_id
                    &&& final(self).issued@ == old(self).issued@.push(client_id)
                    &&& final(self).pool.ids() == old(self).pool.ids().push(client_id)
                    &&& final(self).pool.clients@.len() == old(self).pool.clients@.len() + 1
                    &&& forall|k: int|
                        0 <= k < old(self).pool.clients@.len() ==> (#[trigger] final(self).pool.clients@[k])
                            == old(self).pool.clients@[k]
                    &&& final(self).pool.clients@.last().sender == sender
                    &&& final(self).pool.clients@.last().sent@ == if reg.confirmation is Ok {
                        seq![event_text(registration_notice(client_id))]
                    } else {
                        Seq::<Seq<char>>::empty()
                    }
                    &&& reg.confirmation != Err::<(), DeliveryError>(
                        DeliveryError::UnknownSession,
                    )
                },
                None => *final(self) == *old(self),
            },
    {
        if self.was_issued(client_id) {
            return None;
        }
        let ghost before = *self;
        assert(!before.pool.contains(client_id));
        self.issued.push(client_id);
        self.pool.register_client(client_id, sender);
        let ghost registered = *self;
        proof {
            lemma_push_contains(before.pool.ids(), client_id, client_id);
            lemma_push_fresh_no_duplicates(before.issued@, client_id);
            assert(registered.pool.clients@.last() == fresh_client(client_id, sender));
        }
        let notice = OutgoingMessage::RegistrationSuccess(
            RegistrationSuccessPayload::new(client_id),
        );
        let confirmation = self.pool.send_to(&notice, client_id);
        proof {
            let n = before.pool.clients@.len() as int;
            assert forall|k: int| 0 <= k < n implies (#[trigger] self.pool.clients@[k])
                == before.pool.clients@[k] by {
                assert(registered.pool.clients@[k] == before.pool.clients@[k]);
                assert(before.pool.ids()[k] == before.pool.clients@[k].id);
                assert(before.pool.clients@[k].id != client_id);
            }
            assert(self.pool.clients@[n] == self.pool.clients@.last());
            assert(self.pool.ids() =~= registered.pool.ids());
            assert forall|x: u128| #[trigger] self.pool.contains(x) implies self.issued@.contains(
                x,
            ) by {
                lemma_push_contains(before.pool.ids(), client_id, x);
                lemma_push_contains(before.issued@, client_id, x);
                if before.pool.contains(x) {
                    assert(before.issued@.contains(x));
                }
            }
        }
        Some(Registration { client_id, confirmation })
    }

    /// Removes a closed session from the registry; without an identifier, or
    /// for one no longer registered, nothing changes. Every other session
    /// keeps its entry.
    pub fn disconnect(&mut self, client_id: Option<u128>)
        requires
            old(self).wf(),
        ensures
            final(self).wf(),
            final(self).issued@ == old(self).issued@,
            match client_id {
                Some(id) => {
                    &&& final(self).pool.ids() == without(old(self).pool.ids(), id)
                    &&& old(self).pool.contains(id) ==> final(self).pool.clients@
                        == old(self).pool.clients@.remove(old(self).pool.index_of(id))
                    &&& !old(self).pool.contains(id) ==> final(self).pool.clients@ == old(
                        self,
                    ).pool.clients@
                },
                None => *final(self) == *old(self),
            },
    {
        if let Some(id) = client_id {
            let ghost before = *self;
            self.pool.unregister_client(id);
            proof {
                assert forall|x: u128| #[trigger] self.pool.contains(x) implies self.issued@.contains(
                    x,
                ) by {
                    lemma_without_contains(before.pool.ids(), id, x);
                    assert(before.pool.contains(x));
                }
            }
        }
    }
}

/// The notice that tells a session the identifier it was registered under.
pub open spec fn registration_notice(client_id: u128) -> OutgoingMessage {
    OutgoingMessage::RegistrationSuccess(RegistrationSuccessPayload { client_id })
}

/// Every identifier the relay has given out differs from every other.
pub proof fn lemma_issued_ids_pairwise_distinct(relay: Relay)
    requires
        relay.wf(),
    ensures
        forall|i: int, j: int|
            0 <= i < relay.issued@.len() && 0 <= j < relay.issued@.len() && i != j
                ==> relay.issued@[i] != relay.issued@[j],
{
}

/// Decides what a session in `state` does with a decoded command.
pub fn handle_incoming_message(state: &SessionState, incoming_message: IncomingMessage) -> (r:
    Step)
    ensures
        r == command_step(*state, incoming_message),
{
    match state {
        SessionState::Closed => Step::Nothing,
        SessionState::Unregistered => match incoming_message {
            IncomingMessage::Registration => Step::Register,
            _ => Step::Close { unregister: None, reason: CloseReason::ProtocolViolation },
        },
        SessionState::Registered(id) => match incoming_message {
            IncomingMessage::Registration => Step::Close {
                unregister: Some(*id),
                reason: CloseReason::ProtocolViolation,
            },
            IncomingMessage::Play(p) => Step::Broadcast {
                origin: *id,
                event: OutgoingMessage::Play(PlayPayload::new(p.player, p.timestamp, None)),
            },
            IncomingMessage::Stop(p) => Step::Broadcast {
                origin: *id,
                event: OutgoingMessage::Stop(StopPayload::new(p.player, None)),
            },
            IncomingMessage::FastForward(p) => Step::Broadcast {
                origin: *id,
                event: OutgoingMessage::FastForward(
                    FastForwardPayload::new(p.player, p.target_position, p.timestamp, None),
                ),
            },
        },
    }
}

/// Decides what a session in `state` does with whatever its connection
/// reported: commands go through `handle_incoming_message`; any failure or
/// end of the connection closes it, unregistering its identifier if it has one.
pub fn next_step(state: &SessionState, input: Inbound) -> (r: Step)
    ensures
        input matches Inbound::Message(m) ==> r == command_step(*state, m),
        !(input is Message) ==> r == if *state == SessionState::Closed {
            Step::Nothing
        } else {
            Step::Close { unregister: state.registered_id(), reason: failure_reason(input) }
        },
{
    match input {
        Inbound::Message(m) => handle_incoming_message(state, m),
        _ => {
            if *state == SessionState::Closed {
                Step::Nothing
            } else {
                let reason = match input {
                    Inbound::Undecodable(e) => CloseReason::Decode(e),
                    Inbound::ReadFailed => CloseReason::ReadFailed,
                    Inbound::WriteFailed => CloseReason::WriteFailed,
                    _ => CloseReason::Ended,
                };
                Step::Close { unregister: state.client_id(), reason }
            }
        },
    }
}

} // verus!
