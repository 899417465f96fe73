use vstd::prelude::*;

use tokio::sync::mpsc::UnboundedSender;

verus! {

/// tokio's sending half of an unbounded channel, carried through unopened.
#[verifier::external_type_specification]
#[verifier::external_body]
#[verifier::reject_recursive_types(T)]
pub struct ExUnboundedSender<T>(UnboundedSender<T>);

/// Relies on tokio's `UnboundedSender::send`: it queues the frame without
/// waiting, and fails only when the receiving half has been closed. The
/// entry's `sent` log gains the frame exactly when the queue accepted it.
#[verifier::external_body]
fn queue_frame(client: &mut Client, frame: String) -> (delivered: bool)
    ensures
        final(client).id == old(client).id,
        final(client).sender == old(client).sender,
        final(client).sent@ == if delivered {
            old(client).sent@.push(frame@)
        } else {
            old(client).sent@
        },
{
    client.sender.send(frame).is_ok()
}

/// Why an event did not reach a session's outbound queue.
#[derive(Debug, Clone, Copy, PartialEq, Eq, Structural)]
pub enum DeliveryError {
    /// No session with that identifier is registered.
    UnknownSession,
    /// The session's outbound queue has been closed by its connection.
    SinkClosed,
}

/// A registered session: its identifier and the handle into its outbound queue.
pub struct Client {
    pub id: u128,
    pub sender: UnboundedSender<String>,
    /// Every frame that the queue accepted through this entry, in order.
    pub sent: Ghost<Seq<Seq<char>>>,
}

/// A session entry as registration makes it: nothing sent through it yet.
pub open spec fn fresh_client(id: u128, sender: UnboundedSender<String>) -> Client {
    Client { id, sender, sent: Ghost(Seq::empty()) }
}

/// Two entries for the same session and queue, whatever was sent through them.
pub open spec fn same_session(a: Client, b: Client) -> bool {
    a.id == b.id && a.sender == b.sender
}

impl Client {
    pub fn new(id: u128, sender: UnboundedSender<String>) -> (r: Self)
        ensures
            r == fresh_client(id, sender),
    {
        Client { id, sender, sent: Ghost(Seq::empty()) }
    }

    /// Queues one encoded frame for this session; never blocks.
    pub fn send(&mut self, message: String) -> (r: Result<(), DeliveryError>)
        ensures
            final(self).id == old(self).id,
            final(self).sender == old(self).sender,
            r is Ok || r == Err::<(), DeliveryError>(DeliveryError::SinkClosed),
            final(self).sent@ == if r is Ok {
                old(self).sent@.push(message@)
            } else {
                old(self).sent@
            },
    {
        if queue_frame(self, message) {
            Ok(())
        } else {
            Err(DeliveryError::SinkClosed)
        }
    }
}

} // verus!
