//! Authoritative simulation core for a real-time, top-down arena combat game.
//!
//! The server-side tick loop is the heart of this crate: player lifecycle
//! (join / leave / idle eviction), input coalescing, movement integration with
//! acceleration and drag, melee combat resolution, health / death / respawn
//! state machines, and the per-tick snapshot that is broadcast to clients.
//!
//! All geometry and physics use fixed-point arithmetic: one arena unit is
//! represented as 1000 "milli-units", so the playable square spans
//! [-1000, 1000] on each axis. Durations are nanoseconds.

pub mod geom;
pub mod input;
pub mod palette;
pub mod player;
pub mod scores;
pub mod server;
pub mod settings;
pub mod timer;
