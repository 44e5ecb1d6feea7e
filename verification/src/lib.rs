//! Authoritative core of a two-player networked volleyball game.
//!
//! The crate holds the game's verified logic: the binary wire protocol
//! (`codec`), the per-match scoring and reset state machine (`sim`), the
//! coordinator that owns the lobby and the session table (`logic`), and the
//! UDP sender's player-to-address table (`sender`). Physics integration,
//! sockets and the async control channel are left to the surrounding
//! application, which drives these components with plain values.

pub mod codec;
pub mod logic;
mod rng;
pub mod sender;
pub mod sim;
