//! The mailbox switch: a registry mapping an instance identity to a bounded
//! message queue, routing byte messages by identity.
//!
//! The switch owns every queue. Registering an identity creates a fresh,
//! empty mailbox; registering it again silently replaces the old one, a
//! deliberate choice inherited from the interface. Sending to an unknown
//! identity drops the message without error (startup races are expected);
//! sending to a full mailbox asks the caller to wait (backpressure) instead
//! of dropping; sending to a mailbox whose receiver is gone is absorbed.
//! The concurrent driver serializes access to one switch value and performs
//! the actual waiting whenever an operation answers `WouldBlock` or `Empty`.

use vstd::prelude::*;

verus! {

/// Capacity of one mailbox: how many undelivered messages it holds before
/// further senders must wait for space.
pub const MAILBOX_CAPACITY: usize = 100;

/// A byte message. Messages carry no framing and no type tag.
pub type Message = Vec<u8>;

/// Mathematical model of one mailbox: its queued messages, oldest first,
/// and whether the owning instance still holds the consumer side.
#[verifier::ext_equal]
pub struct MailboxModel {
    pub queue: Seq<Seq<u8>>,
    pub receiver_live: bool,
}

/// What became of a message handed to `send`.
#[derive(Clone, Copy, Debug, PartialEq, Eq, Structural)]
pub enum SendOutcome {
    /// The message was appended to the target's queue.
    Enqueued,
    /// The target's queue is at capacity; nothing was enqueued or dropped,
    /// and the caller must wait for space.
    WouldBlock,
    /// The target identity is not registered; the message was dropped.
    /// This is not an error for the sender.
    Dropped,
    /// The target's receiver is gone; the message was dropped and the
    /// failure is absorbed rather than propagated.
    Closed,
}

/// What a receive attempt on an inbox produced.
#[derive(Debug)]
pub enum RecvOutcome {
    /// The oldest queued message, removed from the queue.
    Message(Message),
    /// The queue is open but empty; the caller must wait for a message.
    Empty,
    /// The inbox is closed and holds no pending message.
    Closed,
}

/// A fresh mailbox as `register` creates it: empty and open.
pub open spec fn fresh_mailbox() -> MailboxModel {
    MailboxModel { queue: Seq::empty(), receiver_live: true }
}

/// The registry after registering `identity`: a fresh mailbox is stored
/// under the identity, replacing any mailbox already there.
pub open spec fn spec_register(routes: Map<u32, MailboxModel>, identity: u32) -> Map<
    u32,
    MailboxModel,
> {
    routes.insert(identity, fresh_mailbox())
}

/// Whether a mailbox can accept a message right now.
pub open spec fn can_accept(routes: Map<u32, MailboxModel>, target: u32) -> bool {
    &&& routes.dom().contains(target)
    &&& routes[target].receiver_live
    &&& routes[target].queue.len() < MAILBOX_CAPACITY
}

/// The registry after one send: the message is appended to the target's
/// queue when the target is registered, open and below capacity; in every
/// other case the registry is unchanged.
pub open spec fn spec_send(
    routes: Map<u32, MailboxModel>,
    target: u32,
    msg: Seq<u8>,
) -> Map<u32, MailboxModel> {
    if can_accept(routes, target) {
        routes.insert(
            target,
            MailboxModel { queue: routes[target].queue.push(msg), receiver_live: true },
        )
    } else {
        routes
    }
}

/// The outcome a send reports, by case.
pub open spec fn spec_send_outcome(
    routes: Map<u32, MailboxModel>,
    target: u32,
) -> SendOutcome {
    if !routes.dom().contains(target) {
        SendOutcome::Dropped
    } else if !routes[target].receiver_live {
        SendOutcome::Closed
    } else if routes[target].queue.len() >= MAILBOX_CAPACITY {
        SendOutcome::WouldBlock
    } else {
        SendOutcome::Enqueued
    }
}

/// Whether a receive on `identity` yields a message right now.
pub open spec fn can_deliver(routes: Map<u32, MailboxModel>, identity: u32) -> bool {
    &&& routes.dom().contains(identity)
    &&& routes[identity].receiver_live
    &&& routes[identity].queue.len() > 0
}

/// The registry after one receive: the oldest message leaves the queue
/// when one is there; in every other case the registry is unchanged.
pub open spec fn spec_recv(routes: Map<u32, MailboxModel>, identity: u32) -> Map<
    u32,
    MailboxModel,
> {
    if can_deliver(routes, identity) {
        routes.insert(
            identity,
            MailboxModel {
                queue: routes[identity].queue.drop_first(),
                receiver_live: true,
            },
        )
    } else {
        routes
    }
}

/// The registry after sending each message of `msgs` in order, first to
/// last, to `target`.
pub open spec fn spec_send_seq(
    routes: Map<u32, MailboxModel>,
    target: u32,
    msgs: Seq<Seq<u8>>,
) -> Map<u32, MailboxModel>
    decreases msgs.len(),
{
    if msgs.len() == 0 {
        routes
    } else {
        spec_send_seq(spec_send(routes, target, msgs[0]), target, msgs.drop_first())
    }
}

/// The registry after `n` receives on `identity`, each taken in turn.
pub open spec fn spec_recv_n(routes: Map<u32, MailboxModel>, identity: u32, n: nat) -> Map<
    u32,
    MailboxModel,
>
    decreases n,
{
    if n == 0 {
        routes
    } else {
        spec_recv(spec_recv_n(routes, identity, (n - 1) as nat), identity)
    }
}

/// Messages sent sequentially by one sender to one open mailbox with room
/// for all of them are appended in send order, and no other mailbox changes.
pub proof fn lemma_sequential_sends_append(
    routes: Map<u32, MailboxModel>,
    target: u32,
    msgs: Seq<Seq<u8>>,
)
    requires
        routes.dom().contains(target),
        routes[target].receiver_live,
        routes[target].queue.len() + msgs.len() <= MAILBOX_CAPACITY,
    ensures
        spec_send_seq(routes, target, msgs) == routes.insert(
            target,
            MailboxModel { queue: routes[target].queue + msgs, receiver_live: true },
        ),
    decreases msgs.len(),
{
    if msgs.len() == 0 {
        assert(routes[target].queue + msgs =~= routes[target].queue);
        assert(routes[target] =~= MailboxModel {
            queue: routes[target].queue,
            receiver_live: true,
        });
        assert(routes.insert(target, routes[target]) =~= routes);
    } else {
        let after_one = spec_send(routes, target, msgs[0]);
        assert(can_accept(routes, target));
        lemma_sequential_sends_append(after_one, target, msgs.drop_first());
        assert(after_one[target].queue + msgs.drop_first() =~= routes[target].queue + msgs);
        assert(spec_send_seq(routes, target, msgs) =~= routes.insert(
            target,
            MailboxModel { queue: routes[target].queue + msgs, receiver_live: true },
        ));
    }
}

/// Isolation between identities: whatever one identity's mailbox does —
/// accept a message, deliver one — every other identity's registration and
/// queue stay exactly as they were.
pub proof fn lemma_per_identity_isolation(
    routes: Map<u32, MailboxModel>,
    active: u32,
    other: u32,
    msg: Seq<u8>,
)
    requires
        active != other,
    ensures
        spec_send(routes, active, msg).dom().contains(other) <==> routes.dom().contains(other),
        spec_recv(routes, active).dom().contains(other) <==> routes.dom().contains(other),
        routes.dom().contains(other) ==> spec_send(routes, active, msg)[other] == routes[other],
        routes.dom().contains(other) ==> spec_recv(routes, active)[other] == routes[other],
{
}

/// Unknown target: a send to an identity that is not registered reports
/// `Dropped`, is not an error, and inserts into no mailbox at all.
pub proof fn lemma_unknown_target(routes: Map<u32, MailboxModel>, target: u32, msg: Seq<u8>)
    requires
        !routes.dom().contains(target),
    ensures
        spec_send_outcome(routes, target) == SendOutcome::Dropped,
        spec_send(routes, target, msg) == routes,
{
}

/// Backpressure: sending more than `MAILBOX_CAPACITY` messages to one
/// target without any receive fills the queue with the first
/// `MAILBOX_CAPACITY` of them, and the next send neither drops nor errors:
/// it answers `WouldBlock` and leaves every queue exactly as it was, so the
/// sender must wait.
pub proof fn lemma_backpressure(routes: Map<u32, MailboxModel>, target: u32, msgs: Seq<Seq<u8>>)
    requires
        routes.dom().contains(target),
        routes[target].receiver_live,
        routes[target].queue.len() == 0,
        msgs.len() > MAILBOX_CAPACITY,
    ensures
        ({
            let filled = spec_send_seq(routes, target, msgs.take(MAILBOX_CAPACITY as int));
            &&& filled[target].queue == msgs.take(MAILBOX_CAPACITY as int)
            &&& spec_send_outcome(filled, target) == SendOutcome::WouldBlock
            &&& spec_send(filled, target, msgs[MAILBOX_CAPACITY as int]) == filled
        }),
{
    let head = msgs.take(MAILBOX_CAPACITY as int);
    lemma_sequential_sends_append(routes, target, head);
    let filled = spec_send_seq(routes, target, head);
    assert(routes[target].queue + head =~= head);
    assert(filled[target].queue == head);
}

/// One receive yields the oldest queued message; after `n` receives the
/// queue holds the remaining messages in their original order, so the next
/// receive yields the message that was queued at position `n`.
pub proof fn lemma_receive_in_order(routes: Map<u32, MailboxModel>, identity: u32, n: nat)
    requires
        routes.dom().contains(identity),
        routes[identity].receiver_live,
        n < routes[identity].queue.len(),
    ensures
        ({
            let after = spec_recv_n(routes, identity, n);
            &&& after[identity].queue == routes[identity].queue.skip(n as int)
            &&& can_deliver(after, identity)
            &&& after[identity].queue[0] == routes[identity].queue[n as int]
        }),
    decreases n,
{
    if n == 0 {
        assert(routes[identity].queue.skip(0) =~= routes[identity].queue);
    } else {
        lemma_receive_in_order(routes, identity, (n - 1) as nat);
        let before = spec_recv_n(routes, identity, (n - 1) as nat);
        assert(can_deliver(before, identity));
        assert(before[identity].queue.drop_first() =~= routes[identity].queue.skip(n as int));
    }
}

/// Routing: for a registered identity with an open, empty inbox and any
/// sequence of messages sent to it in order by a single sender (all within
/// capacity), the `n`-th receive yields exactly the `n`-th message.
pub proof fn lemma_routing_fifo(
    routes: Map<u32, MailboxModel>,
    target: u32,
    msgs: Seq<Seq<u8>>,
    n: nat,
)
    requires
        routes.dom().contains(target),
        routes[target].receiver_live,
        routes[target].queue.len() == 0,
        msgs.len() <= MAILBOX_CAPACITY,
        n < msgs.len(),
    ensures
        ({
            let delivered = spec_send_seq(routes, target, msgs);
            let drained = spec_recv_n(delivered, target, n);
            &&& can_deliver(drained, target)
            &&& drained[target].queue[0] == msgs[n as int]
        }),
{
    lemma_sequential_sends_append(routes, target, msgs);
    let delivered = spec_send_seq(routes, target, msgs);
    assert(routes[target].queue + msgs =~= msgs);
    assert(delivered[target].queue == msgs);
    lemma_receive_in_order(delivered, target, n);
}

struct Mailbox {
    queue: Vec<Message>,
    receiver_live: bool,
}

/// The contents of a queue of messages, as a sequence of byte sequences.
spec fn deep_of(q: Seq<Message>) -> Seq<Seq<u8>> {
    Seq::new(q.len(), |i: int| q[i]@)
}

impl Mailbox {
    spec fn model(self) -> MailboxModel {
        MailboxModel { queue: deep_of(self.queue@), receiver_live: self.receiver_live }
    }
}

/// The switch: the one shared structure of the runtime. The concrete
/// registry is an association list from identity to mailbox whose keys are
/// unique; its public face is the map `routes()`.
pub struct VirtualSwitch {
    entries: Vec<(u32, Mailbox)>,
}

spec fn keys_unique(es: Seq<(u32, Mailbox)>) -> bool {
    forall|i: int, j: int|
        0 <= i < es.len() && 0 <= j < es.len() && i != j ==> (#[trigger] es[i].0) != (
        #[trigger] es[j].0)
}

spec fn entry_index(es: Seq<(u32, Mailbox)>, k: u32) -> int {
    choose|i: int| 0 <= i < es.len() && es[i].0 == k
}

spec fn routes_of(es: Seq<(u32, Mailbox)>) -> Map<u32, MailboxModel> {
    Map::new(
        |k: u32| exists|i: int| 0 <= i < es.len() && (#[trigger] es[i].0) == k,
        |k: u32| es[entry_index(es, k)].1.model(),
    )
}

proof fn lemma_deep_view_push(q1: Seq<Message>, q2: Seq<Message>, m: Message)
    requires
        q2 == q1.push(m),
    ensures
        deep_of(q2) == deep_of(q1).push(m@),
{
    assert(deep_of(q2) =~= deep_of(q1).push(m@));
}

proof fn lemma_deep_view_remove_first(q1: Seq<Message>, q2: Seq<Message>)
    requires
        q1.len() > 0,
        q2 == q1.remove(0),
    ensures
        deep_of(q2) == deep_of(q1).drop_first(),
        q1[0]@ == deep_of(q1)[0],
{
    assert(deep_of(q2) =~= deep_of(q1).drop_first());
}

proof fn lemma_entry_index_unique(es: Seq<(u32, Mailbox)>, i: int)
    requires
        keys_unique(es),
        0 <= i < es.len(),
    ensures
        entry_index(es, es[i].0) == i,
{
    let k = es[i].0;
    assert(exists|j: int| 0 <= j < es.len() && (#[trigger] es[j].0) == k);
    let j = entry_index(es, k);
    assert(0 <= j < es.len() && es[j].0 == k);
}

proof fn lemma_routes_update(
    es: Seq<(u32, Mailbox)>,
    es2: Seq<(u32, Mailbox)>,
    i: int,
    mb: Mailbox,
)
    requires
        keys_unique(es),
        0 <= i < es.len(),
        es2 == es.update(i, (es[i].0, mb)),
    ensures
        keys_unique(es2),
        routes_of(es2) == routes_of(es).insert(es[i].0, mb.model()),
{
    let k = es[i].0;
    assert(forall|j: int| 0 <= j < es2.len() ==> (#[trigger] es2[j].0) == es[j].0);
    assert(keys_unique(es2));
    assert forall|q: u32| routes_of(es2).dom().contains(q) implies routes_of(es).insert(
        k,
        mb.model(),
    ).dom().contains(q) by {
        let j = entry_index(es2, q);
        assert(0 <= j < es2.len() && es2[j].0 == q);
        assert(es[j].0 == q);
        assert(routes_of(es).dom().contains(q));
    }
    assert forall|q: u32| routes_of(es).insert(k, mb.model()).dom().contains(q)
        implies routes_of(es2).dom().contains(q) by {
        if q == k {
            assert(es2[i].0 == k);
        } else {
            let j = entry_index(es, q);
            assert(0 <= j < es.len() && es[j].0 == q);
            assert(es2[j].0 == q);
        }
    }
    assert forall|q: u32| routes_of(es2).dom().contains(q) implies routes_of(es2)[q]
        == routes_of(es).insert(k, mb.model())[q] by {
        let j = entry_index(es2, q);
        assert(0 <= j < es2.len() && es2[j].0 == q);
        if q == k {
            lemma_entry_index_unique(es2, i);
            assert(routes_of(es2)[q] == mb.model());
        } else {
            assert(es[j].0 == q);
            lemma_entry_index_unique(es2, j);
            lemma_entry_index_unique(es, j);
            assert(routes_of(es2)[q] == es[j].1.model());
            assert(routes_of(es)[q] == es[j].1.model());
        }
    }
    assert(routes_of(es2) =~= routes_of(es).insert(k, mb.model()));
}

proof fn lemma_routes_push(es: Seq<(u32, Mailbox)>, k: u32, mb: Mailbox)
    requires
        keys_unique(es),
        forall|i: int| 0 <= i < es.len() ==> (#[trigger] es[i].0) != k,
    ensures
        keys_unique(es.push((k, mb))),
        routes_of(es.push((k, mb))) == routes_of(es).insert(k, mb.model()),
{
    let es2 = es.push((k, mb));
    assert(forall|j: int| 0 <= j < es.len() ==> es2[j] == es[j]);
    assert(es2[es.len() as int].0 == k);
    assert(keys_unique(es2));
    assert forall|q: u32| routes_of(es2).dom().contains(q) implies routes_of(es).insert(
        k,
        mb.model(),
    ).dom().contains(q) by {
        let j = entry_index(es2, q);
        assert(0 <= j < es2.len() && es2[j].0 == q);
        if j < es.len() {
            assert(es[j].0 == q);
            assert(routes_of(es).dom().contains(q));
        }
    }
    assert forall|q: u32| routes_of(es).insert(k, mb.model()).dom().contains(q)
        implies routes_of(es2).dom().contains(q) by {
        if q != k {
            let j = entry_index(es, q);
            assert(0 <= j < es.len() && es[j].0 == q);
            assert(es2[j].0 == q);
        }
    }
    assert forall|q: u32| routes_of(es2).dom().contains(q) implies routes_of(es2)[q]
        == routes_of(es).insert(k, mb.model())[q] by {
        let j = entry_index(es2, q);
        assert(0 <= j < es2.len() && es2[j].0 == q);
        if q == k {
            lemma_entry_index_unique(es2, es.len() as int);
            assert(routes_of(es2)[q] == mb.model());
        } else {
            assert(j < es.len());
            lemma_entry_index_unique(es2, j);
            lemma_entry_index_unique(es, j);
        }
    }
    assert(routes_of(es2) =~= routes_of(es).insert(k, mb.model()));
}

impl VirtualSwitch {
    /// Key uniqueness of the underlying association list.
    pub closed spec fn well_formed(self) -> bool {
        keys_unique(self.entries@)
    }

    /// The registry as a map from identity to mailbox model.
    pub closed spec fn routes(self) -> Map<u32, MailboxModel> {
        routes_of(self.entries@)
    }

    /// Whether `identity` currently has a mailbox.
    pub open spec fn registered(self, identity: u32) -> bool {
        self.routes().dom().contains(identity)
    }

    /// The mailbox registered under `identity`.
    pub open spec fn mailbox(self, identity: u32) -> MailboxModel {
        self.routes()[identity]
    }

    /// An empty switch: no identity is registered.
    pub fn new() -> (s: Self)
        ensures
            s.well_formed(),
            s.routes() == Map::<u32, MailboxModel>::empty(),
    {
        let s = VirtualSwitch { entries: Vec::new() };
        proof {
            assert(s.routes() =~= Map::<u32, MailboxModel>::empty());
        }
        s
    }

    fn find_index(&self, identity: u32) -> (r: Option<usize>)
        ensures
            match r {
                Some(i) => i < self.entries@.len() && self.entries@[i as int].0 == identity,
                None => forall|i: int|
                    0 <= i < self.entries@.len() ==> (#[trigger] self.entries@[i].0) != identity,
            },
    {
        let n = self.entries.len();
        let mut i: usize = 0;
        while i < n
            invariant
                n == self.entries@.len(),
                i <= n,
                forall|j: int| 0 <= j < i ==> (#[trigger] self.entries@[j].0) != identity,
            decreases n - i,
        {
            if self.entries[i].0 == identity {
                return Some(i);
            }
            i = i + 1;
        }
        None
    }

    /// Create a bounded mailbox for `identity` and store it in the registry.
    /// An identity registered twice gets a fresh mailbox: the old one is
    /// silently replaced.
    pub fn register(&mut self, identity: u32)
        requires
            old(self).well_formed(),
        ensures
            final(self).well_formed(),
            final(self).routes() == spec_register(old(self).routes(), identity),
    {
        let fresh = Mailbox { queue: Vec::new(), receiver_live: true };
        let ghost fr = fresh;
        proof {
            assert(fr.model() =~= fresh_mailbox());
        }
        match self.find_index(identity) {
            Some(i) => {
                let ghost es = self.entries@;
                self.entries[i] = (identity, fresh);
                proof {
                    assert(self.entries@ =~= es.update(i as int, (identity, fr)));
                    lemma_routes_update(es, self.entries@, i as int, fr);
                }
            },
            None => {
                let ghost es = self.entries@;
                self.entries.push((identity, fresh));
                proof {
                    assert(self.entries@ =~= es.push((identity, fr)));
                    lemma_routes_push(es, identity, fr);
                }
            },
        }
    }

    /// Route one message to `target`. The outcome says exactly what
    /// happened; the registry changes only when the message was enqueued.
    ///
    /// An unknown target is a normal condition (`Dropped`), never an error
    /// to the sender. A full mailbox answers `WouldBlock`: the message is
    /// neither enqueued nor dropped, and the caller is expected to wait and
    /// retry once space is available.
    pub fn send(&mut self, target: u32, msg: Message) -> (r: SendOutcome)
        requires
            old(self).well_formed(),
        ensures
            final(self).well_formed(),
            r == spec_send_outcome(old(self).routes(), target),
            final(self).routes() == spec_send(old(self).routes(), target, msg@),
    {
        match self.find_index(target) {
            None => SendOutcome::Dropped,
            Some(i) => {
                if !self.entries[i].1.receiver_live {
                    proof {
                        lemma_entry_index_unique(self.entries@, i as int);
                    }
                    SendOutcome::Closed
                } else if self.entries[i].1.queue.len() >= MAILBOX_CAPACITY {
                    proof {
                        lemma_entry_index_unique(self.entries@, i as int);
                    }
                    SendOutcome::WouldBlock
                } else {
                    let ghost es = self.entries@;
                    let ghost old_mb = self.entries@[i as int].1;
                    let ghost m0 = msg;
                    proof {
                        lemma_entry_index_unique(es, i as int);
                    }
                    let entry = &mut self.entries[i];
                    entry.1.queue.push(msg);
                    proof {
                        let new_mb = self.entries@[i as int].1;
                        assert(self.entries@ =~= es.update(i as int, (target, new_mb)));
                        lemma_deep_view_push(old_mb.queue@, new_mb.queue@, m0);
                        lemma_routes_update(es, self.entries@, i as int, new_mb);
                        assert(new_mb.model() =~= MailboxModel {
                            queue: old(self).mailbox(target).queue.push(m0@),
                            receiver_live: true,
                        });
                        assert(final(self).routes() == spec_send(old(self).routes(), target, m0@));
                    }
                    SendOutcome::Enqueued
                }
            },
        }
    }

    /// Take the oldest message from the inbox of `identity`, if one is
    /// queued. An open, empty inbox answers `Empty`: the caller is expected
    /// to wait until a message arrives. A missing or closed inbox answers
    /// `Closed`.
    pub fn recv(&mut self, identity: u32) -> (r: RecvOutcome)
        requires
            old(self).well_formed(),
        ensures
            final(self).well_formed(),
            final(self).routes() == spec_recv(old(self).routes(), identity),
            can_deliver(old(self).routes(), identity) ==> (r matches RecvOutcome::Message(m)
                && m@ == old(self).mailbox(identity).queue[0]),
            old(self).registered(identity) && old(self).mailbox(identity).receiver_live && old(
                self,
            ).mailbox(identity).queue.len() == 0 ==> r is Empty,
            !old(self).registered(identity) || !old(self).mailbox(identity).receiver_live
                ==> r is Closed,
    {
        match self.find_index(identity) {
            None => RecvOutcome::Closed,
            Some(i) => {
                proof {
                    lemma_entry_index_unique(self.entries@, i as int);
                }
                if !self.entries[i].1.receiver_live {
                    RecvOutcome::Closed
                } else if self.entries[i].1.queue.len() == 0 {
                    proof {
                        assert(old(self).mailbox(identity).queue.len() == 0);
                    }
                    RecvOutcome::Empty
                } else {
                    let ghost es = self.entries@;
                    let ghost old_mb = self.entries@[i as int].1;
                    let entry = &mut self.entries[i];
                    let m = entry.1.queue.remove(0);
                    proof {
                        let new_mb = self.entries@[i as int].1;
                        assert(self.entries@ =~= es.update(i as int, (identity, new_mb)));
                        lemma_deep_view_remove_first(old_mb.queue@, new_mb.queue@);
                        assert(m@ == old_mb.model().queue[0]);
                        lemma_routes_update(es, self.entries@, i as int, new_mb);
                        assert(new_mb.model() =~= MailboxModel {
                            queue: old(self).mailbox(identity).queue.drop_first(),
                            receiver_live: true,
                        });
                        assert(final(self).routes() == spec_recv(old(self).routes(), identity));
                    }
                    RecvOutcome::Message(m)
                }
            },
        }
    }

    /// Mark the inbox of `identity` as closed: its consumer side is gone.
    /// Queued messages stay but are never delivered; later sends to the
    /// identity are absorbed as `Closed`.
    pub fn drop_receiver(&mut self, identity: u32)
        requires
            old(self).well_formed(),
        ensures
            final(self).well_formed(),
            !old(self).registered(identity) ==> final(self).routes() == old(self).routes(),
            old(self).registered(identity) ==> final(self).routes() == old(
                self,
            ).routes().insert(
                identity,
                MailboxModel {
                    queue: old(self).mailbox(identity).queue,
                    receiver_live: false,
                },
            ),
    {
        match self.find_index(identity) {
            None => {
            },
            Some(i) => {
                let ghost es = self.entries@;
                let ghost old_mb = self.entries@[i as int].1;
                proof {
                    lemma_entry_index_unique(es, i as int);
                }
                let entry = &mut self.entries[i];
                entry.1.receiver_live = false;
                proof {
                    let new_mb = self.entries@[i as int].1;
                    assert(self.entries@ == es.update(i as int, (identity, new_mb)));
                    assert(new_mb.model().queue =~= old_mb.model().queue);
                    lemma_routes_update(es, self.entries@, i as int, new_mb);
                    assert(final(self).routes() =~= old(self).routes().insert(
                        identity,
                        MailboxModel {
                            queue: old(self).mailbox(identity).queue,
                            receiver_live: false,
                        },
                    ));
                }
            },
        }
    }
}

} // verus!
