//! The shared game aggregate and the composition root handed to every
//! connection task.

use vstd::prelude::*;
use crate::bus::BroadcastBus;
use crate::registry::SessionRegistry;

verus! {

/// How many messages the event bus retains per subscriber.
pub const BUS_CAPACITY: usize = 100;

/// An action a connection may ask the game aggregate to resolve.
#[derive(Clone, Copy, Debug, PartialEq, Eq, Structural)]
pub enum GameAction {
    RollDice,
}

/// An invalid or unsupported action against the game aggregate. Reported
/// back to the originating connection only, never broadcast; the aggregate
/// itself is left untouched.
#[derive(Clone, Copy, Debug, PartialEq, Eq, Structural)]
pub enum AggregateActionError {
    /// No rule resolves this action yet: the dice rules are the extension
    /// point of this core, not part of it.
    UnsupportedAction,
}

/// The shared mutable game state: when the game started, plus whatever
/// state the rules extension will add. Callers serialize access (one
/// mutation at a time, behind one lock held by the surrounding process), so
/// each call sees every earlier mutation.
pub struct Game {
    started: u64,
}

impl Game {
    /// When the game started.
    pub closed spec fn started_at(&self) -> u64 {
        self.started
    }

    /// Reads when the game started.
    pub fn started_value(&self) -> (t: u64)
        ensures
            t == self.started_at(),
    {
        self.started
    }

    /// A fresh aggregate, started now.
    pub fn new(now: u64) -> (g: Game)
        ensures
            g.started_at() == now,
    {
        Game { started: now }
    }

    /// Resolves one action under exclusive access, the single operation the
    /// rest of the system calls into the aggregate through. The rules
    /// themselves are not implemented by this core, so every action is
    /// reported back as unsupported, and the aggregate is never corrupted:
    /// it is exactly as it was.
    pub fn resolve_action(&mut self, action: GameAction) -> (r: Result<(), AggregateActionError>)
        ensures
            r == Err::<(), AggregateActionError>(AggregateActionError::UnsupportedAction),
            *final(self) == *old(self),
    {
        match action {
            GameAction::RollDice => Err(AggregateActionError::UnsupportedAction),
        }
    }
}

/// The composition root: the session table, the producer side of the event
/// bus, and the game aggregate. Created once at startup and shared by
/// reference with every connection task for the life of the process.
pub struct GameState {
    pub user_set: SessionRegistry,
    pub tx: BroadcastBus,
    pub game: Game,
}

impl GameState {
    /// Composes the shared state around an aggregate: an empty session
    /// table and a fresh event bus of the fixed capacity.
    pub fn new(game: Game) -> (gs: GameState)
        ensures
            gs.user_set@ == Map::<u128, crate::session::User>::empty(),
            gs.tx.wf(),
            gs.tx.spec_capacity() == BUS_CAPACITY as int,
            gs.tx.total() == 0,
            gs.game == game,
    {
        GameState { user_set: SessionRegistry::new(), tx: BroadcastBus::new(BUS_CAPACITY), game }
    }

    /// The dice-roll entry point: forwards to the aggregate's serialized
    /// action resolution. Unsupported until the rules extension is plugged
    /// in; nothing is changed and the caller alone learns of the error.
    pub fn rolldice(&mut self) -> (r: Result<(), AggregateActionError>)
        ensures
            r == Err::<(), AggregateActionError>(AggregateActionError::UnsupportedAction),
            *final(self) == *old(self),
    {
        self.game.resolve_action(GameAction::RollDice)
    }
}

} // verus!
