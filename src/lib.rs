//! Two-seat session rooms for a turn-based tile game.
//!
//! A [`Room`] tracks who sits in each of its two seats, forwards player
//! actions to a game engine, keeps a replay log per seat, and routes the
//! engine's events to the seats that are currently connected.
pub mod engine;
pub mod keys;
pub mod laws;
pub mod protocol;
pub mod room;

pub use engine::GameEngine;
pub use protocol::{Msg, PGame};
pub use room::{Room, RoomError};
