//! The shared table of currently admitted sessions: the single source of
//! truth for who is playing. Every operation is one in-memory step; callers
//! serialize access (the surrounding process keeps it behind one lock) and
//! must not assume atomicity across calls.

use vstd::prelude::*;
use std::collections::HashMap;
use crate::session::User;

verus! {

broadcast use vstd::std_specs::hash::group_hash_axioms;

/// The mapping from identity to session. Keys are unique by construction:
/// an identity is inserted only while absent.
pub struct SessionRegistry {
    table: HashMap<u128, User>,
}

impl View for SessionRegistry {
    type V = Map<u128, User>;

    closed spec fn view(&self) -> Map<u128, User> {
        self.table@
    }
}

impl SessionRegistry {
    /// An empty registry.
    pub fn new() -> (r: SessionRegistry)
        ensures
            r@ == Map::<u128, User>::empty(),
    {
        SessionRegistry { table: HashMap::new() }
    }

    /// The set of registered identities is finite: the table is a concrete
    /// in-memory map.
    pub proof fn lemma_dom_finite(&self)
        ensures
            self@.dom().finite(),
    {
    }

    /// How many sessions are currently registered.
    pub fn len(&self) -> (n: usize)
        ensures
            n == self@.len(),
    {
        self.table.len()
    }

    /// Inserts the session under its identity, but only while that identity
    /// is absent: an occupied identity is rejected rather than overwritten,
    /// and the table is then unchanged. Success grows the table by one.
    pub fn register(&mut self, user: User) -> (ok: bool)
        ensures
            ok <==> !old(self)@.contains_key(user.uuid),
            ok ==> final(self)@ == old(self)@.insert(user.uuid, user),
            !ok ==> final(self)@ == old(self)@,
            final(self)@.len() == old(self)@.len() + (if ok { 1int } else { 0 }),
    {
        if self.table.contains_key(&user.uuid) {
            false
        } else {
            let uuid = user.uuid;
            self.table.insert(uuid, user);
            true
        }
    }

    /// Reads the session registered under an identity, if any; no side
    /// effect.
    pub fn lookup(&self, identity: u128) -> (r: Option<&User>)
        ensures
            r is Some <==> self@.contains_key(identity),
            r is Some ==> *r->0 == self@[identity],
    {
        self.table.get(&identity)
    }

    /// Removes and returns the session registered under an identity.
    /// Removing an absent identity is a no-op, not an error, so the
    /// operation is idempotent.
    pub fn remove(&mut self, identity: u128) -> (r: Option<User>)
        ensures
            final(self)@ == old(self)@.remove(identity),
            r is Some <==> old(self)@.contains_key(identity),
            r is Some ==> r->0 == old(self)@[identity],
            old(self)@.len() == final(self)@.len() + (if r is Some { 1int } else { 0 }),
    {
        let r = self.table.remove(&identity);
        proof {
            if !old(self)@.contains_key(identity) {
                assert(final(self)@ =~= old(self)@);
                assert(old(self)@.remove(identity) =~= old(self)@);
            }
        }
        r
    }
}

/// The registry after a run of registrations, each taken in turn.
pub open spec fn replay_joins(m: Map<u128, User>, users: Seq<User>) -> Map<u128, User>
    decreases users.len(),
{
    if users.len() == 0 {
        m
    } else {
        replay_joins(m, users.drop_last()).insert(users.last().uuid, users.last())
    }
}

/// Each registration in the run found its identity absent, i.e. each
/// `register` call of the run returned success.
pub open spec fn joins_all_succeed(m: Map<u128, User>, users: Seq<User>) -> bool
    decreases users.len(),
{
    if users.len() == 0 {
        true
    } else {
        joins_all_succeed(m, users.drop_last()) && !replay_joins(
            m,
            users.drop_last(),
        ).contains_key(users.last().uuid)
    }
}

proof fn lemma_replay_joins_contains(m: Map<u128, User>, users: Seq<User>, id: u128)
    requires
        m.contains_key(id) || (exists|i: int| 0 <= i < users.len() && users[i].uuid == id),
    ensures
        replay_joins(m, users).contains_key(id),
    decreases users.len(),
{
    if users.len() > 0 {
        if users.last().uuid != id {
            if exists|i: int| 0 <= i < users.len() && users[i].uuid == id {
                let i = choose|i: int| 0 <= i < users.len() && users[i].uuid == id;
                assert(users.drop_last()[i] == users[i]);
            }
            lemma_replay_joins_contains(m, users.drop_last(), id);
        }
    }
}

/// Uniqueness law: after any run of successful registrations, the assigned
/// identities are pairwise distinct, and each is distinct from every
/// identity that was already registered when the run began.
pub proof fn lemma_join_identities_distinct(m: Map<u128, User>, users: Seq<User>)
    requires
        joins_all_succeed(m, users),
    ensures
        forall|i: int, j: int|
            0 <= i < users.len() && 0 <= j < users.len() && i != j ==> users[i].uuid
                != users[j].uuid,
        forall|i: int| 0 <= i < users.len() ==> !m.contains_key(#[trigger] users[i].uuid),
    decreases users.len(),
{
    if users.len() > 0 {
        let prefix = users.drop_last();
        lemma_join_identities_distinct(m, prefix);
        assert forall|i: int| 0 <= i < users.len() implies !m.contains_key(
            #[trigger] users[i].uuid,
        ) by {
            if i == users.len() - 1 {
                if m.contains_key(users[i].uuid) {
                    lemma_replay_joins_contains(m, prefix, users[i].uuid);
                }
            } else {
                assert(prefix[i] == users[i]);
            }
        }
        assert forall|i: int, j: int|
            0 <= i < users.len() && 0 <= j < users.len() && i != j implies users[i].uuid
            != users[j].uuid by {
            if i < users.len() - 1 && j < users.len() - 1 {
                assert(prefix[i] == users[i] && prefix[j] == users[j]);
            } else {
                let k = if i < j { i } else { j };
                assert(prefix[k] == users[k]);
                if users[k].uuid == users.last().uuid {
                    lemma_replay_joins_contains(m, prefix, users[k].uuid);
                }
            }
        }
    }
}

} // verus!
