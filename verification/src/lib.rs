//! A matchmaking lobby for a two-player turn-based game.
//!
//! The broker in [`server`] owns the identity and match registries and
//! serializes every command against them; [`session`] is the per-connection
//! state machine that turns inbound frames into broker commands and watches
//! connection liveness; [`wire`] is the JSON-style codec for the frames
//! themselves; [`model`] holds the shared data types.

pub mod model;
pub mod server;
pub mod session;
pub mod wire;
