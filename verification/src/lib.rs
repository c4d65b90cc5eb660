//! Room-based multiplayer quiz session coordinator: the room directory, the
//! player presence registry, the host-side round state machine, the scoring
//! rule, and the per-player relay decisions, each with a verified contract.
//! The asynchronous transport around this library lives outside it and feeds
//! it plain values.

pub mod api;
pub mod game;
pub mod names;
pub mod player;
pub mod score;
pub mod state;
