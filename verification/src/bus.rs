//! The fan-out channel that carries textual game events to every subscribed
//! connection. Delivery is best effort: the bus keeps only the most recent
//! messages, up to a fixed capacity, so a subscriber that does not drain in
//! time loses its oldest unread messages and nobody else is slowed down.
//! Publishing never waits on any subscriber.

use vstd::prelude::*;

verus! {

/// The shared side of the bus: the retained window of recent messages, the
/// count of everything ever published, and (as a ghost companion) the full
/// publish history that contracts are stated over.
pub struct BroadcastBus {
    capacity: usize,
    buffer: Vec<String>,
    total: usize,
    log: Ghost<Seq<Seq<char>>>,
}

/// One consumer's cursor into the publish history. Subscribers are
/// independent: each holds its own position and none can affect another.
pub struct Subscriber {
    cursor: usize,
}

/// What one attempt to read the next message yields.
#[derive(Debug)]
pub enum RecvOutcome {
    /// Nothing published past this subscriber's position yet.
    Pending,
    /// The subscriber fell more than the capacity behind: this many of its
    /// oldest unread messages were discarded, and its cursor now stands at
    /// the oldest retained message.
    Lagged(usize),
    /// The next message, in publish order.
    Message(String),
}

impl Subscriber {
    /// The index into the publish history this subscriber will read next.
    pub closed spec fn position(&self) -> int {
        self.cursor as int
    }
}

impl BroadcastBus {
    /// How many messages the bus retains for lagging subscribers.
    pub closed spec fn spec_capacity(&self) -> int {
        self.capacity as int
    }

    /// How many messages were ever published.
    pub closed spec fn total(&self) -> int {
        self.total as int
    }

    /// Every message ever published, in publish order.
    pub closed spec fn log(&self) -> Seq<Seq<char>> {
        self.log@
    }

    /// The retained window: the messages a subscriber can still receive.
    pub closed spec fn retained(&self) -> Seq<Seq<char>> {
        self.buffer@.map_values(|m: String| m@)
    }

    /// The bus retains exactly the most recent messages of its history, up
    /// to its capacity.
    pub closed spec fn wf(&self) -> bool {
        &&& self.capacity >= 1
        &&& self.log@.len() == self.total as int
        &&& self.buffer@.len() == if self.total <= self.capacity {
            self.total as int
        } else {
            self.capacity as int
        }
        &&& forall|i: int|
            0 <= i < self.buffer@.len() ==> #[trigger] self.buffer@[i]@ == self.log@[self.total
                - self.buffer@.len() + i]
    }

    /// A fresh bus that retains up to `capacity` messages per subscriber.
    pub fn new(capacity: usize) -> (bus: BroadcastBus)
        requires
            capacity >= 1,
        ensures
            bus.wf(),
            bus.spec_capacity() == capacity,
            bus.total() == 0,
            bus.log() == Seq::<Seq<char>>::empty(),
    {
        BroadcastBus { capacity, buffer: Vec::new(), total: 0, log: Ghost(Seq::empty()) }
    }

    /// Publishes one message to every subscriber. This never waits and never
    /// fails, however far behind any subscriber is: if the window is full,
    /// the oldest retained message is dropped to make room.
    pub fn publish(&mut self, msg: String)
        requires
            old(self).wf(),
            old(self).total() < usize::MAX,
        ensures
            final(self).wf(),
            final(self).spec_capacity() == old(self).spec_capacity(),
            final(self).total() == old(self).total() + 1,
            final(self).log() == old(self).log().push(msg@),
    {
        let ghost new_log = self.log@.push(msg@);
        self.buffer.push(msg);
        if self.buffer.len() > self.capacity {
            self.buffer.remove(0);
        }
        self.total = self.total + 1;
        self.log = Ghost(new_log);
        proof {
            assert forall|i: int| 0 <= i < self.buffer@.len() implies #[trigger] self.buffer@[i]@
                == self.log@[self.total - self.buffer@.len() + i] by {
                if i < self.buffer@.len() - 1 {
                    assert(self.log@[self.total - self.buffer@.len() + i] == old(self).log()[old(
                        self,
                    ).total() - old(self).buffer@.len() + (self.total - self.buffer@.len() + i)
                        - (old(self).total() - old(self).buffer@.len())]);
                }
            }
        }
    }

    /// A new subscription. It observes only what is published after this
    /// call: its position starts at the end of the history, with no replay.
    pub fn subscribe(&self) -> (s: Subscriber)
        ensures
            s.position() == self.total(),
    {
        Subscriber { cursor: self.total }
    }

    /// One read attempt by a subscriber. In publish order, each message the
    /// subscriber has not yet read is delivered exactly once, except that a
    /// subscriber that fell more than the capacity behind first learns how
    /// many of its oldest unread messages were discarded and then resumes at
    /// the oldest retained one.
    pub fn recv(&self, sub: &mut Subscriber) -> (r: RecvOutcome)
        requires
            self.wf(),
            0 <= old(sub).position() <= self.total(),
        ensures
            0 <= final(sub).position() <= self.total(),
            old(sub).position() == self.total() ==> r is Pending && final(sub).position()
                == old(sub).position(),
            old(sub).position() < self.total() - self.spec_capacity() ==> (match r {
                RecvOutcome::Lagged(n) => {
                    &&& n as int == self.total() - self.spec_capacity() - old(sub).position()
                    &&& final(sub).position() == self.total() - self.spec_capacity()
                },
                _ => false,
            }),
            self.total() - self.spec_capacity() <= old(sub).position() < self.total() ==> (match r {
                RecvOutcome::Message(m) => {
                    &&& m@ == self.log()[old(sub).position()]
                    &&& final(sub).position() == old(sub).position() + 1
                },
                _ => false,
            }),
    {
        if sub.cursor >= self.total {
            return RecvOutcome::Pending;
        }
        let oldest = self.total - self.buffer.len();
        if sub.cursor < oldest {
            let skipped = oldest - sub.cursor;
            sub.cursor = oldest;
            return RecvOutcome::Lagged(skipped);
        }
        let msg = self.buffer[sub.cursor - oldest].clone();
        proof {
            assert(self.buffer@[old(sub).position() - (self.total() - self.buffer@.len())]@
                == self.log@[old(sub).position()]);
        }
        sub.cursor = sub.cursor + 1;
        RecvOutcome::Message(msg)
    }
}

/// Drop-policy law: once more messages have been published than the bus
/// retains, the window holds exactly the most recent `capacity` messages of
/// the history — everything older has been discarded, and a subscriber that
/// resumes reading receives exactly those most recent messages.
pub proof fn lemma_overflow_keeps_most_recent(bus: BroadcastBus)
    requires
        bus.wf(),
        bus.total() >= bus.spec_capacity(),
    ensures
        bus.retained().len() == bus.spec_capacity(),
        forall|i: int|
            0 <= i < bus.spec_capacity() ==> #[trigger] bus.retained()[i] == bus.log()[bus.total()
                - bus.spec_capacity() + i],
{
}

} // verus!
