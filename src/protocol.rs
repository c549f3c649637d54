//! The events a room sends to its players, and the public view of a room.
use vstd::prelude::*;

verus! {

/// An event for one seat: either synthesized by the room, or produced by the
/// game engine (`Game`).
#[derive(Debug, PartialEq, Eq)]
pub enum Msg<M> {
    /// The seat assignment sent when the second player joins: the receiver's
    /// seat, both nicks, and the receiver's player key.
    Room { you: usize, nicks: [String; 2], key: String },
    /// A past event redelivered to a reconnecting player.
    Replay { msg: Box<Msg<M>> },
    /// An event of the game engine.
    Game(M),
}

/// What a room shows to the outside.
#[derive(Debug, PartialEq, Eq)]
pub enum PGame {
    /// A game in progress, with both nicks.
    Game { nicks: [String; 2] },
    /// A room awaiting its second player: the first player's nick and the
    /// room key.
    Player { nick: String, key: String },
}

/// `b` is a copy of `a`: the same event, with each engine event replaced by a
/// clone of it.
pub open spec fn is_copy<M: Clone>(a: Msg<M>, b: Msg<M>) -> bool
    decreases a,
{
    match a {
        Msg::Room { .. } => b == a,
        Msg::Replay { msg } => match b {
            Msg::Replay { msg: m } => is_copy(*msg, *m),
            _ => false,
        },
        Msg::Game(x) => match b {
            Msg::Game(y) => cloned(x, y),
            _ => false,
        },
    }
}

/// A copy of a pair of nicks.
pub fn copy_nicks(nicks: &[String; 2]) -> (r: [String; 2])
    ensures
        r == *nicks,
{
    let r = [nicks[0].clone(), nicks[1].clone()];
    proof {
        broadcast use vstd::array::group_array_axioms;

        assert(r =~= *nicks);
    }
    r
}

impl<M: Clone> Msg<M> {
    /// A copy of this event.
    pub fn duplicate(&self) -> (r: Msg<M>)
        ensures
            is_copy(*self, r),
        decreases self,
    {
        match self {
            Msg::Room { you, nicks, key } => Msg::Room {
                you: *you,
                nicks: copy_nicks(nicks),
                key: key.clone(),
            },
            Msg::Replay { msg } => {
                let inner = (**msg).duplicate();
                Msg::Replay { msg: Box::new(inner) }
            },
            Msg::Game(x) => Msg::Game(x.clone()),
        }
    }
}

} // verus!
