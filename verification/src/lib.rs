//! Connection and session core of a real-time multiplayer dice game server.
//!
//! The library holds the verified logic of the server: the session data
//! model, the registry of admitted players, the handshake state machine that
//! admits a raw connection as a player, the bounded fan-out bus that carries
//! game events to every subscriber, and the shared game aggregate. The
//! surrounding process (listener setup, upgrade negotiation, the async I/O
//! loop per connection) drives these pieces from outside.

pub mod bus;
pub mod game;
pub mod handshake;
mod ident;
pub mod metrics;
pub mod protocol;
pub mod registry;
pub mod session;

pub use game::{Game, GameState};
pub use session::User;
