//! The boundary to the game engine that a room drives.
use vstd::prelude::*;

verus! {

/// A stateful game engine for two seats, `0` and `1`, whose events are of
/// type `M`.
///
/// The room promises nothing about what the engine computes: every room
/// operation states its effect for whatever the engine hands back.
pub trait GameEngine<M> {
    /// Initializes the game; may queue startup events.
    fn on_start(&mut self);

    /// Advances the engine's clock by one tick; may queue events.
    fn beat(&mut self);

    /// Whether the game has concluded.
    fn finished(&self) -> bool;

    /// Applies an action of the player in `seat`; may queue events and may
    /// conclude the game.
    fn on_message(&mut self, seat: usize, msg: M);

    /// Returns and clears the queued `(seat, event)` pairs, oldest first.
    fn messages(&mut self) -> Vec<(usize, M)>;

    /// One event that brings a reconnecting `seat` up to date, if needed.
    fn rejoin_msg(&self, seat: usize) -> Option<M>;
}

} // verus!
