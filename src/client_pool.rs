use vstd::prelude::*;

use tokio::sync::mpsc::UnboundedSender;

use crate::client::{fresh_client, same_session, Client, DeliveryError};
use crate::codec::{encode, event_text};
use crate::message::OutgoingMessage;

verus! {

/// `s` with every occurrence of `x` left out, the rest in order.
pub open spec fn without(s: Seq<u128>, x: u128) -> Seq<u128>
    decreases s.len(),
{
    if s.len() == 0 {
        Seq::empty()
    } else if s.last() == x {
        without(s.drop_last(), x)
    } else {
        without(s.drop_last(), x).push(s.last())
    }
}

proof fn lemma_contains_split(s: Seq<u128>, y: u128)
    requires
        s.len() > 0,
    ensures
        s.contains(y) <==> (s.drop_last().contains(y) || s.last() == y),
{
    if s.contains(y) {
        let i = choose|i: int| 0 <= i < s.len() && s[i] == y;
        if i < s.len() - 1 {
            assert(s.drop_last()[i] == y);
        }
    }
    if s.drop_last().contains(y) {
        let i = choose|i: int| 0 <= i < s.drop_last().len() && s.drop_last()[i] == y;
        assert(s[i] == y);
    }
    if s.last() == y {
        assert(s[s.len() - 1] == y);
    }
}

pub(crate) proof fn lemma_push_contains(s: Seq<u128>, a: u128, y: u128)
    ensures
        s.push(a).contains(y) <==> (s.contains(y) || a == y),
{
    lemma_contains_split(s.push(a), y);
    assert(s.push(a).drop_last() =~= s);
}

pub(crate) proof fn lemma_push_fresh_no_duplicates(s: Seq<u128>, a: u128)
    requires
        s.no_duplicates(),
        !s.contains(a),
    ensures
        s.push(a).no_duplicates(),
{
    assert forall|i: int, j: int|
        0 <= i < s.push(a).len() && 0 <= j < s.push(a).len() && i != j implies s.push(a)[i]
        != s.push(a)[j] by {
        if i == s.len() {
            assert(s[j] == s.push(a)[j]);
        } else if j == s.len() {
            assert(s[i] == s.push(a)[i]);
        }
    }
}

/// Membership after leaving `x` out: every other element stays, `x` does not.
pub proof fn lemma_without_contains(s: Seq<u128>, x: u128, y: u128)
    ensures
        without(s, x).contains(y) <==> (s.contains(y) && y != x),
    decreases s.len(),
{
    if s.len() > 0 {
        lemma_without_contains(s.drop_last(), x, y);
        lemma_contains_split(s, y);
        if s.last() != x {
            lemma_push_contains(without(s.drop_last(), x), s.last(), y);
        }
    }
}

/// Leaving an element out keeps a sequence free of duplicates.
pub proof fn lemma_without_no_duplicates(s: Seq<u128>, x: u128)
    requires
        s.no_duplicates(),
    ensures
        without(s, x).no_duplicates(),
    decreases s.len(),
{
    if s.len() > 0 {
        let d = s.drop_last();
        assert(d.no_duplicates());
        lemma_without_no_duplicates(d, x);
        if s.last() != x {
            lemma_without_contains(d, x, s.last());
            assert(!d.contains(s.last())) by {
                if d.contains(s.last()) {
                    let i = choose|i: int| 0 <= i < d.len() && d[i] == s.last();
                    assert(s[i] == s[s.len() - 1]);
                }
            }
            lemma_push_fresh_no_duplicates(without(d, x), s.last());
        }
    }
}

proof fn lemma_without_absent(s: Seq<u128>, x: u128)
    requires
        !s.contains(x),
    ensures
        without(s, x) == s,
    decreases s.len(),
{
    if s.len() > 0 {
        lemma_contains_split(s, x);
        lemma_without_absent(s.drop_last(), x);
        assert(s.drop_last().push(s.last()) =~= s);
    }
}

proof fn lemma_without_remove(s: Seq<u128>, i: int)
    requires
        s.no_duplicates(),
        0 <= i < s.len(),
    ensures
        without(s, s[i]) == s.remove(i),
    decreases s.len(),
{
    let d = s.drop_last();
    assert(d.no_duplicates());
    if i == s.len() - 1 {
        assert(!d.contains(s[i])) by {
            if d.contains(s[i]) {
                let j = choose|j: int| 0 <= j < d.len() && d[j] == s[i];
                assert(s[j] == s[i]);
            }
        }
        lemma_without_absent(d, s[i]);
        assert(s.remove(i) =~= d);
    } else {
        assert(d[i] == s[i]);
        lemma_without_remove(d, i);
        assert(s.last() != s[i]);
        assert(s.remove(i) =~= d.remove(i).push(s.last()));
    }
}

/// The outcome of one attempted delivery.
#[derive(Debug, Clone, Copy, PartialEq, Eq, Structural)]
pub struct Delivery {
    pub client_id: u128,
    pub delivered: bool,
}

/// How many of `s` reached their session.
pub open spec fn count_delivered(s: Seq<Delivery>) -> nat
    decreases s.len(),
{
    if s.len() == 0 {
        0
    } else {
        count_delivered(s.drop_last()) + if s.last().delivered {
            1nat
        } else {
            0nat
        }
    }
}

/// What a broadcast did: one outcome per attempted session, in attempt order.
pub struct DeliverySummary {
    pub outcomes: Vec<Delivery>,
}

impl DeliverySummary {
    /// The sessions a delivery was attempted to, in order.
    pub open spec fn targets(&self) -> Seq<u128> {
        self.outcomes@.map_values(|d: Delivery| d.client_id)
    }

    /// The number of sessions the event reached.
    pub fn delivered_count(&self) -> (r: usize)
        ensures
            r == count_delivered(self.outcomes@),
    {
        let mut count: usize = 0;
        let mut i: usize = 0;
        while i < self.outcomes.len()
            invariant
                i <= self.outcomes@.len(),
                count <= i,
                count == count_delivered(self.outcomes@.subrange(0, i as int)),
            decreases self.outcomes@.len() - i,
        {
            assert(self.outcomes@.subrange(0, i + 1).drop_last() =~= self.outcomes@.subrange(
                0,
                i as int,
            ));
            if self.outcomes[i].delivered {
                count = count + 1;
            }
            i = i + 1;
        }
        assert(self.outcomes@.subrange(0, i as int) =~= self.outcomes@);
        count
    }

    /// The number of sessions the event could not be queued for.
    pub fn failed_count(&self) -> (r: usize)
        ensures
            r == self.outcomes@.len() - count_delivered(self.outcomes@),
    {
        let mut count: usize = 0;
        let mut i: usize = 0;
        while i < self.outcomes.len()
            invariant
                i <= self.outcomes@.len(),
                count <= i,
                i - count == count_delivered(self.outcomes@.subrange(0, i as int)),
            decreases self.outcomes@.len() - i,
        {
            assert(self.outcomes@.subrange(0, i + 1).drop_last() =~= self.outcomes@.subrange(
                0,
                i as int,
            ));
            if !self.outcomes[i].delivered {
                count = count + 1;
            }
            i = i + 1;
        }
        assert(self.outcomes@.subrange(0, i as int) =~= self.outcomes@);
        count
    }
}

/// The registry of live sessions: each registered identifier with the handle
/// into its connection's outbound queue, in order of registration. The
/// entries are kept in a vector with unique identifiers rather than a hash
/// map, so that a broadcast walks them in a fixed order and its contract can
/// say, entry by entry, what each session's queue was handed.
pub struct ClientPool {
    pub clients: Vec<Client>,
}

impl ClientPool {
    /// The registered identifiers, in order of registration.
    pub open spec fn ids(&self) -> Seq<u128> {
        self.clients@.map_values(|c: Client| c.id)
    }

    /// Each identifier is registered at most once.
    pub open spec fn wf(&self) -> bool {
        self.ids().no_duplicates()
    }

    pub open spec fn contains(&self, id: u128) -> bool {
        self.ids().contains(id)
    }

    /// Where `id` stands among the registered sessions.
    pub open spec fn index_of(&self, id: u128) -> int {
        choose|i: int| 0 <= i < self.clients@.len() && self.clients@[i].id == id
    }

    proof fn lemma_index_of(&self, i: int)
        requires
            self.wf(),
            0 <= i < self.clients@.len(),
        ensures
            self.index_of(self.clients@[i].id) == i,
    {
        let id = self.clients@[i].id;
        let j = self.index_of(id);
        assert(0 <= j < self.clients@.len() && self.clients@[j].id == id);
        assert(self.ids()[i] == self.ids()[j]);
    }

    pub fn new() -> (r: Self)
        ensures
            r.wf(),
            r.clients@ == Seq::<Client>::empty(),
    {
        let r = ClientPool { clients: Vec::new() };
        assert(r.ids() =~= Seq::<u128>::empty());
        r
    }

    fn position(&self, id: u128) -> (r: Option<usize>)
        ensures
            match r {
                Some(i) => i < self.clients@.len() && self.clients@[i as int].id == id,
                None => !self.contains(id),
            },
    {
        let mut i: usize = 0;
        while i < self.clients.len()
            invariant
                i <= self.clients@.len(),
                forall|j: int| 0 <= j < i ==> self.clients@[j].id != id,
            decreases self.clients@.len() - i,
        {
            if self.clients[i].id == id {
                return Some(i);
            }
            i = i + 1;
        }
        assert(!self.contains(id)) by {
            if self.ids().contains(id) {
                let j = choose|j: int| 0 <= j < self.ids().len() && self.ids()[j] == id;
                assert(self.clients@[j].id == id);
            }
        }
        None
    }

    /// Registers `client_id` with its outbound queue. An identifier that is
    /// already registered has its queue replaced, keeping its place.
    pub fn register_client(&mut self, client_id: u128, sender: UnboundedSender<String>)
        requires
            old(self).wf(),
        ensures
            final(self).wf(),
            old(self).contains(client_id) ==> final(self).clients@ == old(self).clients@.update(
                old(self).index_of(client_id),
                fresh_client(client_id, sender),
            ),
            !old(self).contains(client_id) ==> final(self).clients@ == old(self).clients@.push(
                fresh_client(client_id, sender),
            ),
            final(self).ids() == if old(self).contains(client_id) {
                old(self).ids()
            } else {
                old(self).ids().push(client_id)
            },
    {
        let ghost before = *self;
        match self.position(client_id) {
            Some(i) => {
                proof {
                    before.lemma_index_of(i as int);
                    assert(before.ids()[i as int] == client_id);
                }
                self.clients[i] = Client::new(client_id, sender);
                assert(self.ids() =~= before.ids());
            },
            None => {
                self.clients.push(Client::new(client_id, sender));
                assert(self.ids() =~= before.ids().push(client_id));
                proof {
                    lemma_push_fresh_no_duplicates(before.ids(), client_id);
                }
            },
        }
    }

    /// Removes `client_id` if it is registered; otherwise does nothing.
    pub fn unregister_client(&mut self, client_id: u128)
        requires
            old(self).wf(),
        ensures
            final(self).wf(),
            final(self).ids() == without(old(self).ids(), client_id),
            old(self).contains(client_id) ==> final(self).clients@ == old(self).clients@.remove(
                old(self).index_of(client_id),
            ),
            !old(self).contains(client_id) ==> final(self).clients@ == old(self).clients@,
    {
        let ghost before = *self;
        match self.position(client_id) {
            Some(i) => {
                proof {
                    before.lemma_index_of(i as int);
                    assert(before.ids()[i as int] == client_id);
                    lemma_without_remove(before.ids(), i as int);
                }
                let _gone = self.clients.remove(i);
                assert(self.ids() =~= before.ids().remove(i as int));
                proof {
                    lemma_without_no_duplicates(before.ids(), client_id);
                }
            },
            None => {
                proof {
                    lemma_without_absent(before.ids(), client_id);
                }
            },
        }
    }

    /// Queues `output` for the session `client_id`: that session's log gains
    /// the event's frame exactly when the call succeeds; no other entry changes.
    pub fn send_to(&mut self, output: &OutgoingMessage, client_id: u128) -> (r: Result<
        (),
        DeliveryError,
    >)
        requires
            old(self).wf(),
        ensures
            final(self).wf(),
            r == Err::<(), DeliveryError>(DeliveryError::UnknownSession) <==> !old(self).contains(
                client_id,
            ),
            final(self).clients@.len() == old(self).clients@.len(),
            forall|k: int|
                0 <= k < old(self).clients@.len() ==> {
                    &&& same_session(#[trigger] final(self).clients@[k], old(self).clients@[k])
                    &&& final(self).clients@[k].sent@ == if old(self).clients@[k].id == client_id
                        && r is Ok {
                        old(self).clients@[k].sent@.push(event_text(*output))
                    } else {
                        old(self).clients@[k].sent@
                    }
                },
    {
        let ghost before = *self;
        match self.position(client_id) {
            Some(i) => {
                assert(self.ids()[i as int] == client_id);
                let frame = encode(output);
                let r = self.clients[i].send(frame);
                assert forall|k: int| 0 <= k < before.clients@.len() && k != i implies (#[trigger]
                    self.clients@[k]) == before.clients@[k] by {}
                assert forall|k: int|
                    0 <= k < before.clients@.len() && k != i implies before.clients@[k].id
                    != client_id by {
                    assert(before.ids()[k] == before.clients@[k].id);
                    assert(before.ids()[i as int] == before.clients@[i as int].id);
                }
                assert(self.ids() =~= before.ids());
                r
            },
            None => {
                assert forall|k: int| 0 <= k < before.clients@.len() implies before.clients@[k].id
                    != client_id by {
                    assert(before.ids()[k] == before.clients@[k].id);
                }
                Err(DeliveryError::UnknownSession)
            },
        }
    }

    /// Queues `output` for every registered session but `ignored_client_id`.
    /// Each of them is tried exactly once, in order of registration, whatever
    /// became of the others; each one's log gains the event's frame exactly
    /// when its outcome says it was delivered, and no other log changes.
    pub fn broadcast_ignore(&mut self, output: &OutgoingMessage, ignored_client_id: u128) -> (r:
        DeliverySummary)
        requires
            old(self).wf(),
        ensures
            final(self).wf(),
            r.targets() == without(old(self).ids(), ignored_client_id),
            logs_after_broadcast(
                old(self).clients@,
                final(self).clients@,
                *output,
                ignored_client_id,
                r.outcomes@,
            ),
    {
        let ghost before = *self;
        let frame = encode(output);
        let mut outcomes: Vec<Delivery> = Vec::new();
        let mut i: usize = 0;
        while i < self.clients.len()
            invariant
                i <= self.clients@.len(),
                self.clients@.len() == before.clients@.len(),
                before.wf(),
                frame@ == event_text(*output),
                outcomes@.map_values(|d: Delivery| d.client_id) == without(
                    before.ids().subrange(0, i as int),
                    ignored_client_id,
                ),
                forall|k: int|
                    0 <= k < before.clients@.len() ==> same_session(
                        #[trigger] self.clients@[k],
                        before.clients@[k],
                    ),
                forall|k: int|
                    i <= k < before.clients@.len() ==> #[trigger] self.clients@[k].sent@
                        == before.clients@[k].sent@,
                forall|k: int|
                    0 <= k < i ==> #[trigger] self.clients@[k].sent@ == if before.clients@[k].id
                        != ignored_client_id && delivered_to(outcomes@, before.clients@[k].id) {
                        before.clients@[k].sent@.push(event_text(*output))
                    } else {
                        before.clients@[k].sent@
                    },
            decreases self.clients@.len() - i,
        {
            let ghost done = outcomes@;
            let ghost prior = self.clients@;
            assert(before.ids().subrange(0, i + 1).drop_last() =~= before.ids().subrange(
                0,
                i as int,
            ));
            assert(before.ids()[i as int] == before.clients@[i as int].id);
            assert(before.ids().subrange(0, i + 1).last() == before.clients@[i as int].id);
            let id = self.clients[i].id;
            if id != ignored_client_id {
                let result = self.clients[i].send(frame.clone());
                let d = Delivery { client_id: id, delivered: result.is_ok() };
                outcomes.push(d);
                assert(outcomes@.map_values(|d: Delivery| d.client_id) =~= done.map_values(
                    |d: Delivery| d.client_id,
                ).push(id));
                proof {
                    assert forall|x: u128| #[trigger]
                        delivered_to(outcomes@, x) == (delivered_to(done, x) || (x == id
                            && d.delivered)) by {
                        lemma_delivered_to_push(done, d, x);
                    }
                    assert(!delivered_to(done, id)) by {
                        if delivered_to(done, id) {
                            let j = choose|j: int|
                                0 <= j < done.len() && done[j].client_id == id && done[j].delivered;
                            assert(done.map_values(|d: Delivery| d.client_id)[j] == id);
                            lemma_without_contains(before.ids().subrange(0, i as int), ignored_client_id, id);
                            let m = choose|m: int|
                                0 <= m < i && before.ids().subrange(0, i as int)[m] == id;
                            assert(before.ids()[m] == before.ids()[i as int]);
                        }
                    }
                    assert forall|k: int| 0 <= k < i implies before.clients@[k].id != id by {
                        assert(before.ids()[k] == before.clients@[k].id);
                    }
                    assert forall|k: int| 0 <= k < before.clients@.len() && k != i implies (#[trigger]
                        self.clients@[k]) == prior[k] by {}
                }
            }
            i = i + 1;
        }
        assert(before.ids().subrange(0, i as int) =~= before.ids());
        assert(self.ids() =~= before.ids()) by {
            assert forall|k: int| 0 <= k < self.ids().len() implies self.ids()[k] == before.ids()[k] by {
                assert(same_session(self.clients@[k], before.clients@[k]));
            }
        }
        DeliverySummary { outcomes }
    }
}

/// What a broadcast of `output` that skips `origin` did to the entries
/// `before`: each keeps its session and queue, and its log gains the event's
/// frame exactly where `outcomes` records a delivery to it.
pub open spec fn logs_after_broadcast(
    before: Seq<Client>,
    after: Seq<Client>,
    output: OutgoingMessage,
    origin: u128,
    outcomes: Seq<Delivery>,
) -> bool {
    &&& after.len() == before.len()
    &&& forall|k: int|
        0 <= k < before.len() ==> {
            &&& same_session(#[trigger] after[k], before[k])
            &&& after[k].sent@ == if before[k].id != origin && delivered_to(outcomes, before[k].id) {
                before[k].sent@.push(event_text(output))
            } else {
                before[k].sent@
            }
        }
}

/// Events from one origin reach every other session in the order in which
/// they were broadcast.
pub proof fn lemma_broadcasts_keep_order(
    p0: Seq<Client>,
    p1: Seq<Client>,
    p2: Seq<Client>,
    first: OutgoingMessage,
    second: OutgoingMessage,
    origin: u128,
    o1: Seq<Delivery>,
    o2: Seq<Delivery>,
    k: int,
)
    requires
        logs_after_broadcast(p0, p1, first, origin, o1),
        logs_after_broadcast(p1, p2, second, origin, o2),
        0 <= k < p0.len(),
        p0[k].id != origin,
        delivered_to(o1, p0[k].id),
        delivered_to(o2, p0[k].id),
    ensures
        same_session(p2[k], p0[k]),
        p2[k].sent@ == p0[k].sent@.push(event_text(first)).push(event_text(second)),
{
    assert(same_session(p1[k], p0[k]));
    assert(same_session(p2[k], p1[k]));
}

/// Whether `s` records a delivery to `id` that reached its queue.
pub open spec fn delivered_to(s: Seq<Delivery>, id: u128) -> bool {
    exists|j: int| 0 <= j < s.len() && s[j].client_id == id && s[j].delivered
}

proof fn lemma_delivered_to_push(s: Seq<Delivery>, d: Delivery, x: u128)
    ensures
        delivered_to(s.push(d), x) == (delivered_to(s, x) || (x == d.client_id && d.delivered)),
{
    if delivered_to(s.push(d), x) {
        let j = choose|j: int|
            0 <= j < s.push(d).len() && s.push(d)[j].client_id == x && s.push(d)[j].delivered;
        if j < s.len() {
            assert(s[j] == s.push(d)[j]);
        }
    }
    if delivered_to(s, x) {
        let j = choose|j: int| 0 <= j < s.len() && s[j].client_id == x && s[j].delivered;
        assert(s.push(d)[j] == s[j]);
    }
    if x == d.client_id && d.delivered {
        assert(s.push(d)[s.len() as int] == d);
    }
}

/// A broadcast from `origin` reaches every other registered session exactly
/// once, and never `origin` itself.
pub proof fn lemma_broadcast_reaches_every_other_once(ids: Seq<u128>, origin: u128)
    requires
        ids.no_duplicates(),
    ensures
        without(ids, origin).no_duplicates(),
        forall|id: u128| #[trigger]
            without(ids, origin).contains(id) <==> (ids.contains(id) && id != origin),
        !without(ids, origin).contains(origin),
{
    lemma_without_no_duplicates(ids, origin);
    assert forall|id: u128| #[trigger]
        without(ids, origin).contains(id) <==> (ids.contains(id) && id != origin) by {
        lemma_without_contains(ids, origin, id);
    }
}

/// Once `gone` has been unregistered, no later broadcast, from any origin,
/// attempts a delivery to it.
pub proof fn lemma_unregistered_never_targeted(ids: Seq<u128>, gone: u128, origin: u128)
    ensures
        !without(without(ids, gone), origin).contains(gone),
{
    lemma_without_contains(without(ids, gone), origin, gone);
    lemma_without_contains(ids, gone, gone);
}

} // verus!
