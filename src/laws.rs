//! Properties of rooms that span several operations.
use vstd::prelude::*;

use crate::protocol::Msg;
use crate::room::{is_replay_of, replays_with_snapshot, seat_of, Room};

verus! {

/// A finished room shows nothing: `describe` gives no session whenever
/// `finished` holds.
pub proof fn lemma_finished_room_shows_nothing<G, M>(room: Room<G, M>)
    requires
        room.is_finished(),
    ensures
        room.description() is None,
{
}

/// A room whose game is over is finished exactly when both seats are empty:
/// it stays open while anyone is connected.
pub proof fn lemma_over_room_finishes_when_empty<G, M>(room: Room<G, M>)
    requires
        room.is_started(),
        room.is_over(),
    ensures
        room.is_finished() <==> (room.occupants()[0] is None && room.occupants()[1] is None),
        room.description() is None,
{
}

/// Disconnecting frees the seat and keeps its log, so rejoining that seat
/// is accepted, and a rejoin replays exactly what was logged for the seat
/// before the disconnect, in order, followed by at most one snapshot, and by
/// one only while the game runs.
pub proof fn lemma_rejoin_after_disconnect_replays_log<G, M: Clone>(
    before: Room<G, M>,
    between: Room<G, M>,
    after: Room<G, M>,
    user_id: usize,
    new_user_id: usize,
    sent: Seq<(usize, Msg<M>)>,
)
    requires
        before.wf(),
        seat_of(before.occupants(), user_id) is Some,
        Room::disconnected(before, between, user_id),
    ensures
        between.occupants()[seat_of(before.occupants(), user_id).unwrap() as int] is None,
        Room::rejoined(between, after, new_user_id, seat_of(before.occupants(), user_id).unwrap(), sent)
            ==> replays_with_snapshot(
            before.logs()[seat_of(before.occupants(), user_id).unwrap() as int],
            new_user_id,
            before.is_started() && !before.is_over(),
            sent,
        ),
{
    before.lemma_two_seats();
}

/// Without a running game a rejoin replays the log alone: every entry in
/// order, each in a replay envelope, and nothing after it.
pub proof fn lemma_replay_without_game<M: Clone>(
    log: Seq<Msg<M>>,
    user_id: usize,
    sent: Seq<(usize, Msg<M>)>,
)
    requires
        replays_with_snapshot(log, user_id, false, sent),
    ensures
        sent.len() == log.len(),
        forall|k: int| 0 <= k < log.len() ==> #[trigger] is_replay_of(sent[k], user_id, log[k]),
{
}

} // verus!
