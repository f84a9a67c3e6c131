//! The per-connection control flow: a strict single-round admission check
//! before any shared state is touched, then steady-state relaying, then
//! cleanup that is guaranteed to deregister the session.

use vstd::prelude::*;
use crate::ident::fresh_identity;
use crate::protocol::{parse_u16, parse_u16_spec, CrapsAction, HandshakeError};
use crate::registry::SessionRegistry;
use crate::session::{default_nick, User};

verus! {

/// Where one connection stands in its lifecycle.
#[derive(Clone, Copy, Debug, PartialEq, Eq, Structural)]
pub enum ConnState {
    /// Connected, but no handshake message has arrived yet. No shared state
    /// has been touched.
    AwaitingJoin,
    /// Admitted and registered; the acknowledgement is still owed.
    Registered,
    /// In the steady state, relaying game events.
    Active,
    /// Terminal: the session, if one was ever registered, has been
    /// deregistered.
    Closed,
}

/// The state machine of one connection task. It holds no I/O itself: the
/// surrounding task reads and writes the socket and reports what happened,
/// and every decision and every touch of the registry is made here.
pub struct ConnectionHandler {
    pub state: ConnState,
    pub identity: Option<u128>,
}

impl ConnectionHandler {
    /// A handler carries an identity exactly while its session is
    /// registered; once closed it has already deregistered it.
    pub open spec fn wf(&self) -> bool {
        match self.state {
            ConnState::AwaitingJoin => self.identity is None,
            ConnState::Registered => self.identity is Some,
            ConnState::Active => self.identity is Some,
            ConnState::Closed => self.identity is None,
        }
    }

    /// A handler for a connection that has just been accepted.
    pub fn new() -> (h: ConnectionHandler)
        ensures
            h.state == ConnState::AwaitingJoin,
            h.wf(),
    {
        ConnectionHandler { state: ConnState::AwaitingJoin, identity: None }
    }

    /// Registers a fresh session under the given identity. Success is owed
    /// exactly when the identity is absent; a collision rejects the
    /// connection rather than overwriting the existing session, and leaves
    /// the registry as it was.
    pub fn register_session(
        &mut self,
        registry: &mut SessionRegistry,
        identity: u128,
        now: u64,
    ) -> (ok: bool)
        requires
            old(self).state == ConnState::AwaitingJoin,
            old(self).wf(),
        ensures
            final(self).wf(),
            ok <==> !old(registry)@.contains_key(identity),
            ok ==> {
                &&& final(self).state == ConnState::Registered
                &&& final(self).identity == Some(identity)
                &&& final(registry)@ == old(registry)@.insert(
                    identity,
                    final(registry)@[identity],
                )
                &&& final(registry)@[identity].uuid == identity
                &&& final(registry)@[identity].nick@ == default_nick()
                &&& final(registry)@[identity].hb == now
                &&& final(registry)@.len() == old(registry)@.len() + 1
            },
            !ok ==> {
                &&& final(self).state == ConnState::Closed
                &&& final(self).identity is None
                &&& final(registry)@ == old(registry)@
            },
    {
        let user = User::new(identity, now);
        if registry.register(user) {
            self.state = ConnState::Registered;
            self.identity = Some(identity);
            true
        } else {
            self.state = ConnState::Closed;
            self.identity = None;
            false
        }
    }

    /// Handles the first inbound event: either the connection closed before
    /// any message, or a first message arrived. The message must be text
    /// that parses as an unsigned 16-bit integer equal to the join code;
    /// anything else closes the connection without touching shared state.
    /// On a join, a fresh identity is generated and registered.
    pub fn on_first_message(
        &mut self,
        registry: &mut SessionRegistry,
        msg: Option<&str>,
        now: u64,
    ) -> (r: Result<(), HandshakeError>)
        requires
            old(self).state == ConnState::AwaitingJoin,
            old(self).wf(),
        ensures
            final(self).wf(),
            r is Ok <==> final(self).state == ConnState::Registered,
            r is Ok ==> {
                let id = final(self).identity->0;
                &&& msg is Some
                &&& parse_u16_spec(msg->0@) == Some(CrapsAction::Join.spec_code())
                &&& final(self).identity is Some
                &&& !old(registry)@.contains_key(id)
                &&& final(registry)@ == old(registry)@.insert(id, final(registry)@[id])
                &&& final(registry)@[id].uuid == id
                &&& final(registry)@[id].nick@ == default_nick()
                &&& final(registry)@[id].hb == now
                &&& final(registry)@.len() == old(registry)@.len() + 1
            },
            r is Err ==> final(self).state == ConnState::Closed && final(self).identity is None
                && final(registry)@ == old(registry)@,
            msg is None ==> r == Err::<(), HandshakeError>(HandshakeError::ClosedBeforeMessage),
            msg is Some && parse_u16_spec(msg->0@) is None ==> r == Err::<(),
            HandshakeError>(HandshakeError::NonNumeric),
            msg is Some && parse_u16_spec(msg->0@) is Some && parse_u16_spec(msg->0@)->0
                != CrapsAction::Join.spec_code() ==> r == Err::<(), HandshakeError>(
                HandshakeError::WrongActionCode,
            ),
            msg is Some && parse_u16_spec(msg->0@) == Some(CrapsAction::Join.spec_code()) && r is Err
                ==> r == Err::<(), HandshakeError>(HandshakeError::IdentityCollision),
            msg is Some && parse_u16_spec(msg->0@) == Some(CrapsAction::Join.spec_code()) && old(
                registry,
            )@.len() == 0 ==> r is Ok,
    {
        match msg {
            None => {
                self.state = ConnState::Closed;
                Err(HandshakeError::ClosedBeforeMessage)
            },
            Some(text) => {
                match parse_u16(text) {
                    None => {
                        self.state = ConnState::Closed;
                        Err(HandshakeError::NonNumeric)
                    },
                    Some(code) => {
                        if code != CrapsAction::Join.code() {
                            self.state = ConnState::Closed;
                            Err(HandshakeError::WrongActionCode)
                        } else {
                            let identity = fresh_identity();
                            if self.register_session(registry, identity, now) {
                                Ok(())
                            } else {
                                proof {
                                    if old(registry)@.len() == 0 {
                                        registry.lemma_dom_finite();
                                        vstd::set::axiom_set_remove_len(
                                            old(registry)@.dom(),
                                            identity,
                                        );
                                        assert(false);
                                    }
                                }
                                Err(HandshakeError::IdentityCollision)
                            }
                        }
                    },
                }
            },
        }
    }

    /// Takes the outcome of sending the post-join acknowledgement. Success
    /// moves the session into the steady state; a send failure closes the
    /// connection and removes the session from the registry before the task
    /// ends, so a failed connection never leaves a dangling entry.
    pub fn on_ack_result(&mut self, registry: &mut SessionRegistry, sent: bool)
        requires
            old(self).state == ConnState::Registered,
            old(self).wf(),
        ensures
            final(self).wf(),
            sent ==> final(self).state == ConnState::Active && final(self).identity == old(
                self,
            ).identity && final(registry)@ == old(registry)@,
            !sent ==> {
                let id = old(self).identity->0;
                &&& final(self).state == ConnState::Closed
                &&& final(self).identity is None
                &&& final(registry)@ == old(registry)@.remove(id)
                &&& !final(registry)@.contains_key(id)
                &&& old(registry)@.len() == final(registry)@.len() + (
                if old(registry)@.contains_key(id) {
                    1int
                } else {
                    0
                })
            },
    {
        if sent {
            self.state = ConnState::Active;
        } else {
            self.deregister(registry);
        }
    }

    /// The transition into `Closed`, reachable from every state: whatever
    /// the connection was doing, its session (if any) is deregistered and
    /// the handler ends closed. Calling it again changes nothing, so
    /// deregistration is idempotent.
    pub fn on_disconnect(&mut self, registry: &mut SessionRegistry)
        requires
            old(self).wf(),
        ensures
            final(self).wf(),
            final(self).state == ConnState::Closed,
            final(self).identity is None,
            old(self).identity is Some ==> final(registry)@ == old(registry)@.remove(
                old(self).identity->0,
            ) && !final(registry)@.contains_key(old(self).identity->0),
            old(self).identity is None ==> final(registry)@ == old(registry)@,
    {
        self.deregister(registry);
    }

    /// Removes the session under this handler's identity, if it holds one,
    /// and leaves the handler closed.
    fn deregister(&mut self, registry: &mut SessionRegistry)
        ensures
            final(self).state == ConnState::Closed,
            final(self).identity is None,
            old(self).identity is Some ==> final(registry)@ == old(registry)@.remove(
                old(self).identity->0,
            ) && !final(registry)@.contains_key(old(self).identity->0) && old(registry)@.len()
                == final(registry)@.len() + (
            if old(registry)@.contains_key(old(self).identity->0) {
                1int
            } else {
                0
            }),
            old(self).identity is None ==> final(registry)@ == old(registry)@,
    {
        match self.identity {
            Some(id) => {
                registry.remove(id);
            },
            None => {},
        }
        self.identity = None;
        self.state = ConnState::Closed;
    }
}

/// A connection counts toward the registry while its session is meant to be
/// registered: from admission until closing.
pub open spec fn is_admitted(h: ConnectionHandler) -> bool {
    h.state == ConnState::Registered || h.state == ConnState::Active
}

/// How many of a family of connection tasks are admitted.
pub open spec fn admitted_count(hs: Seq<ConnectionHandler>) -> nat
    decreases hs.len(),
{
    if hs.len() == 0 {
        0
    } else {
        admitted_count(hs.drop_last()) + if is_admitted(hs.last()) {
            1nat
        } else {
            0
        }
    }
}

/// The registry and a family of connection tasks agree: every admitted
/// task's identity is registered, no two admitted tasks share an identity,
/// and every registered identity belongs to some admitted task. Each
/// transition of `ConnectionHandler` preserves this agreement.
pub open spec fn tracks(hs: Seq<ConnectionHandler>, m: Map<u128, User>) -> bool {
    &&& forall|i: int|
        0 <= i < hs.len() && is_admitted(#[trigger] hs[i]) ==> hs[i].identity is Some
            && m.contains_key(hs[i].identity->0)
    &&& forall|i: int, j: int|
        0 <= i < hs.len() && 0 <= j < hs.len() && i != j && is_admitted(#[trigger] hs[i])
            && is_admitted(#[trigger] hs[j]) ==> hs[i].identity->0 != hs[j].identity->0
    &&& forall|id: u128|
        #[trigger] m.contains_key(id) ==> exists|i: int|
            0 <= i < hs.len() && is_admitted(#[trigger] hs[i]) && hs[i].identity->0 == id
}

/// A fresh connection changes nothing: appending a task that is not yet
/// admitted keeps the agreement, with the registry untouched.
pub proof fn lemma_tracks_after_connect(
    hs: Seq<ConnectionHandler>,
    m: Map<u128, User>,
    h: ConnectionHandler,
)
    requires
        tracks(hs, m),
        !is_admitted(h),
    ensures
        tracks(hs.push(h), m),
{
    let hs2 = hs.push(h);
    assert forall|id: u128| #[trigger] m.contains_key(id) implies exists|i: int|
        0 <= i < hs2.len() && is_admitted(#[trigger] hs2[i]) && hs2[i].identity->0 == id by {
        let i = choose|i: int|
            0 <= i < hs.len() && is_admitted(#[trigger] hs[i]) && hs[i].identity->0 == id;
        assert(hs2[i] == hs[i]);
        assert(is_admitted(hs2[i]) && hs2[i].identity->0 == id);
    }
    assert forall|i: int| 0 <= i < hs2.len() && is_admitted(#[trigger] hs2[i]) implies hs2[i].identity
        is Some && m.contains_key(hs2[i].identity->0) by {
        assert(hs2[i] == hs[i]);
    }
    assert forall|i: int, j: int|
        0 <= i < hs2.len() && 0 <= j < hs2.len() && i != j && is_admitted(#[trigger] hs2[i])
            && is_admitted(#[trigger] hs2[j]) implies hs2[i].identity->0 != hs2[j].identity->0 by {
        assert(hs2[i] == hs[i] && hs2[j] == hs[j]);
    }
}

/// A successful registration keeps the agreement: the task becomes admitted
/// under a fresh identity exactly as that identity enters the registry.
pub proof fn lemma_tracks_after_join(
    hs: Seq<ConnectionHandler>,
    m: Map<u128, User>,
    i: int,
    h2: ConnectionHandler,
    u: User,
)
    requires
        tracks(hs, m),
        0 <= i < hs.len(),
        !is_admitted(hs[i]),
        is_admitted(h2),
        h2.identity is Some,
        !m.contains_key(h2.identity->0),
    ensures
        tracks(hs.update(i, h2), m.insert(h2.identity->0, u)),
{
    let hs2 = hs.update(i, h2);
    let m2 = m.insert(h2.identity->0, u);
    assert forall|k: int| 0 <= k < hs2.len() && is_admitted(#[trigger] hs2[k]) implies hs2[k].identity
        is Some && m2.contains_key(hs2[k].identity->0) by {
        if k != i {
            assert(hs2[k] == hs[k]);
        }
    }
    assert forall|k: int, l: int|
        0 <= k < hs2.len() && 0 <= l < hs2.len() && k != l && is_admitted(#[trigger] hs2[k])
            && is_admitted(#[trigger] hs2[l]) implies hs2[k].identity->0 != hs2[l].identity->0 by {
        if k != i && l != i {
            assert(hs2[k] == hs[k] && hs2[l] == hs[l]);
        } else {
            let other = if k == i {
                l
            } else {
                k
            };
            assert(hs2[other] == hs[other]);
            assert(m.contains_key(hs[other].identity->0));
        }
    }
    assert forall|id: u128| #[trigger] m2.contains_key(id) implies exists|k: int|
        0 <= k < hs2.len() && is_admitted(#[trigger] hs2[k]) && hs2[k].identity->0 == id by {
        if id == h2.identity->0 {
            assert(is_admitted(hs2[i]) && hs2[i].identity->0 == id);
        } else {
            let k = choose|k: int|
                0 <= k < hs.len() && is_admitted(#[trigger] hs[k]) && hs[k].identity->0 == id;
            assert(k != i);
            assert(hs2[k] == hs[k]);
            assert(is_admitted(hs2[k]) && hs2[k].identity->0 == id);
        }
    }
}

/// Closing an admitted task keeps the agreement: it leaves the admitted
/// states exactly as its identity leaves the registry.
pub proof fn lemma_tracks_after_close(
    hs: Seq<ConnectionHandler>,
    m: Map<u128, User>,
    i: int,
    h2: ConnectionHandler,
)
    requires
        tracks(hs, m),
        0 <= i < hs.len(),
        is_admitted(hs[i]),
        !is_admitted(h2),
    ensures
        tracks(hs.update(i, h2), m.remove(hs[i].identity->0)),
{
    let hs2 = hs.update(i, h2);
    let id = hs[i].identity->0;
    let m2 = m.remove(id);
    assert forall|k: int| 0 <= k < hs2.len() && is_admitted(#[trigger] hs2[k]) implies hs2[k].identity
        is Some && m2.contains_key(hs2[k].identity->0) by {
        assert(k != i);
        assert(hs2[k] == hs[k]);
        assert(hs[k].identity->0 != id);
    }
    assert forall|k: int, l: int|
        0 <= k < hs2.len() && 0 <= l < hs2.len() && k != l && is_admitted(#[trigger] hs2[k])
            && is_admitted(#[trigger] hs2[l]) implies hs2[k].identity->0 != hs2[l].identity->0 by {
        assert(hs2[k] == hs[k] && hs2[l] == hs[l]);
    }
    assert forall|id2: u128| #[trigger] m2.contains_key(id2) implies exists|k: int|
        0 <= k < hs2.len() && is_admitted(#[trigger] hs2[k]) && hs2[k].identity->0 == id2 by {
        let k = choose|k: int|
            0 <= k < hs.len() && is_admitted(#[trigger] hs[k]) && hs[k].identity->0 == id2;
        assert(k != i);
        assert(hs2[k] == hs[k]);
        assert(is_admitted(hs2[k]) && hs2[k].identity->0 == id2);
    }
}

/// A transition that keeps the task admitted under the same identity (the
/// move from `Registered` to `Active`) keeps the agreement, with the
/// registry untouched. So does any transition of a task that stays
/// unadmitted (a rejected handshake).
pub proof fn lemma_tracks_after_step(
    hs: Seq<ConnectionHandler>,
    m: Map<u128, User>,
    i: int,
    h2: ConnectionHandler,
)
    requires
        tracks(hs, m),
        0 <= i < hs.len(),
        is_admitted(h2) ==> is_admitted(hs[i]) && h2.identity == hs[i].identity,
        !is_admitted(h2) ==> !is_admitted(hs[i]),
    ensures
        tracks(hs.update(i, h2), m),
{
    let hs2 = hs.update(i, h2);
    assert forall|k: int| 0 <= k < hs2.len() && is_admitted(#[trigger] hs2[k]) implies hs2[k].identity
        is Some && m.contains_key(hs2[k].identity->0) by {
        if k != i {
            assert(hs2[k] == hs[k]);
        }
    }
    assert forall|k: int, l: int|
        0 <= k < hs2.len() && 0 <= l < hs2.len() && k != l && is_admitted(#[trigger] hs2[k])
            && is_admitted(#[trigger] hs2[l]) implies hs2[k].identity->0 != hs2[l].identity->0 by {
        if k != i && l != i {
            assert(hs2[k] == hs[k] && hs2[l] == hs[l]);
        }
    }
    assert forall|id: u128| #[trigger] m.contains_key(id) implies exists|k: int|
        0 <= k < hs2.len() && is_admitted(#[trigger] hs2[k]) && hs2[k].identity->0 == id by {
        let k = choose|k: int|
            0 <= k < hs.len() && is_admitted(#[trigger] hs[k]) && hs[k].identity->0 == id;
        if k == i {
            assert(is_admitted(hs2[i]) && hs2[i].identity->0 == id);
        } else {
            assert(hs2[k] == hs[k]);
            assert(is_admitted(hs2[k]) && hs2[k].identity->0 == id);
        }
    }
}

/// Registry consistency law: whenever the registry and the connection tasks
/// agree as `tracks` says, the number of registered sessions equals the
/// number of connections in the `Registered` or `Active` state.
pub proof fn lemma_registry_consistency(hs: Seq<ConnectionHandler>, m: Map<u128, User>)
    requires
        tracks(hs, m),
        m.dom().finite(),
    ensures
        m.len() == admitted_count(hs),
    decreases hs.len(),
{
    if hs.len() == 0 {
        assert forall|id: u128| !(#[trigger] m.dom().contains(id)) by {
            if m.contains_key(id) {
                let i = choose|i: int|
                    0 <= i < hs.len() && is_admitted(#[trigger] hs[i]) && hs[i].identity->0 == id;
            }
        }
        assert(m.dom() =~= Set::<u128>::empty());
    } else {
        let prefix = hs.drop_last();
        let h = hs.last();
        assert(hs[hs.len() - 1] == h);
        if is_admitted(h) {
            let id = h.identity->0;
            let m2 = m.remove(id);
            assert forall|i: int| 0 <= i < prefix.len() && is_admitted(#[trigger] prefix[i])
                implies prefix[i].identity is Some && m2.contains_key(prefix[i].identity->0) by {
                assert(prefix[i] == hs[i]);
                assert(hs[i].identity->0 != id);
            }
            assert forall|id2: u128| #[trigger] m2.contains_key(id2) implies exists|i: int|
                0 <= i < prefix.len() && is_admitted(#[trigger] prefix[i]) && prefix[i].identity->0
                    == id2 by {
                let i = choose|i: int|
                    0 <= i < hs.len() && is_admitted(#[trigger] hs[i]) && hs[i].identity->0 == id2;
                assert(i < hs.len() - 1);
                assert(prefix[i] == hs[i]);
                assert(is_admitted(prefix[i]) && prefix[i].identity->0 == id2);
            }
            assert forall|i: int, j: int|
                0 <= i < prefix.len() && 0 <= j < prefix.len() && i != j && is_admitted(
                    #[trigger] prefix[i],
                ) && is_admitted(#[trigger] prefix[j]) implies prefix[i].identity->0
                != prefix[j].identity->0 by {
                assert(prefix[i] == hs[i] && prefix[j] == hs[j]);
            }
            vstd::set::axiom_set_remove_len(m.dom(), id);
            lemma_registry_consistency(prefix, m2);
        } else {
            assert forall|id2: u128| #[trigger] m.contains_key(id2) implies exists|i: int|
                0 <= i < prefix.len() && is_admitted(#[trigger] prefix[i]) && prefix[i].identity->0
                    == id2 by {
                let i = choose|i: int|
                    0 <= i < hs.len() && is_admitted(#[trigger] hs[i]) && hs[i].identity->0 == id2;
                assert(i < hs.len() - 1);
                assert(prefix[i] == hs[i]);
                assert(is_admitted(prefix[i]) && prefix[i].identity->0 == id2);
            }
            assert forall|i: int| 0 <= i < prefix.len() && is_admitted(#[trigger] prefix[i])
                implies prefix[i].identity is Some && m.contains_key(prefix[i].identity->0) by {
                assert(prefix[i] == hs[i]);
            }
            assert forall|i: int, j: int|
                0 <= i < prefix.len() && 0 <= j < prefix.len() && i != j && is_admitted(
                    #[trigger] prefix[i],
                ) && is_admitted(#[trigger] prefix[j]) implies prefix[i].identity->0
                != prefix[j].identity->0 by {
                assert(prefix[i] == hs[i] && prefix[j] == hs[j]);
            }
            lemma_registry_consistency(prefix, m);
        }
    }
}

} // verus!
