//! The room: seat occupancy, replay logs, and routing of engine events.
use vstd::prelude::*;

use crate::engine::GameEngine;
use crate::keys::{gen_key, is_key};
use crate::protocol::{copy_nicks, is_copy, Msg, PGame};

verus! {

broadcast use vstd::array::group_array_axioms;

/// Why a room refused an operation.
#[derive(Debug, Clone, Copy, PartialEq, Eq, Structural)]
pub enum RoomError {
    /// The seat is taken, or the game has already started.
    AlreadyJoined,
    /// No game exists yet.
    GameNotStarted,
    /// The game has concluded.
    GameFinished,
}

/// A session for two seats, `0` and `1`.
///
/// `game` is absent until the second player joins. `over` records that the
/// engine has reported the game finished; it never resets. `user_ids` are the
/// live connections bound to the seats, and `messages` the replay log of
/// each seat.
pub struct Room<G, M> {
    game: Option<G>,
    over: bool,
    user_ids: [Option<usize>; 2],
    nicks: [String; 2],
    pub room_key: String,
    pub player_keys: [String; 2],
    messages: [Vec<Msg<M>>; 2],
}

/// The seat bound to `user_id`, if any; seat `0` is looked at first.
pub open spec fn seat_of(occupants: Seq<Option<usize>>, user_id: usize) -> Option<usize> {
    if occupants[0] == Some(user_id) {
        Some(0usize)
    } else if occupants[1] == Some(user_id) {
        Some(1usize)
    } else {
        None
    }
}

/// The log of `seat` after `events` have been drained into it: every event
/// addressed to that seat is appended, in order.
pub open spec fn appended<M>(log: Seq<Msg<M>>, seat: int, events: Seq<(usize, M)>) -> Seq<Msg<M>>
    decreases events.len(),
{
    if events.len() == 0 {
        log
    } else {
        let prev = appended(log, seat, events.drop_last());
        if events.last().0 == seat {
            prev.push(Msg::Game(events.last().1))
        } else {
            prev
        }
    }
}

/// Both logs after `events` have been drained into them.
pub open spec fn routed_logs<M>(logs: Seq<Seq<Msg<M>>>, events: Seq<(usize, M)>) -> Seq<
    Seq<Msg<M>>,
> {
    seq![appended(logs[0], 0, events), appended(logs[1], 1, events)]
}

/// The live deliveries for `events`: each event addressed to an occupied
/// seat goes to that seat's occupant, in order; the others go nowhere.
pub open spec fn deliveries<M>(occupants: Seq<Option<usize>>, events: Seq<(usize, M)>) -> Seq<
    (usize, Msg<M>),
>
    decreases events.len(),
{
    if events.len() == 0 {
        Seq::empty()
    } else {
        let prev = deliveries(occupants, events.drop_last());
        let (seat, ev) = events.last();
        if seat < 2 && occupants[seat as int] is Some {
            prev.push((occupants[seat as int].unwrap(), Msg::Game(ev)))
        } else {
            prev
        }
    }
}

/// `y` is the delivery `x` with its event replaced by a copy of it.
pub open spec fn is_copy_to<M: Clone>(x: (usize, Msg<M>), y: (usize, Msg<M>)) -> bool {
    y.0 == x.0 && is_copy(x.1, y.1)
}

/// `b` is `a` with each event replaced by a copy of it.
pub open spec fn copies<M: Clone>(a: Seq<(usize, Msg<M>)>, b: Seq<(usize, Msg<M>)>) -> bool {
    &&& a.len() == b.len()
    &&& forall|k: int| 0 <= k < a.len() ==> #[trigger] is_copy_to(a[k], b[k])
}

/// `after` and `sent` are what draining some sequence of engine events into
/// the logs `before`, with the seats bound to `occupants`, produces.
pub open spec fn drained<M: Clone>(
    before: Seq<Seq<Msg<M>>>,
    occupants: Seq<Option<usize>>,
    after: Seq<Seq<Msg<M>>>,
    sent: Seq<(usize, Msg<M>)>,
) -> bool {
    exists|events: Seq<(usize, M)>|
        #[trigger] routed_logs(before, events) == after && copies(deliveries(occupants, events), sent)
}

/// The seat-assignment event for `seat`.
pub open spec fn assignment<M>(seat: usize, nicks: [String; 2], key: String) -> Msg<M> {
    Msg::Room { you: seat, nicks, key }
}

/// The seat-assignment deliveries: one to each occupied seat, seat `0` first.
pub open spec fn assignments<M>(
    occupants: Seq<Option<usize>>,
    nicks: [String; 2],
    keys: [String; 2],
) -> Seq<(usize, Msg<M>)> {
    let first: Seq<(usize, Msg<M>)> = if occupants[0] is Some {
        seq![(occupants[0].unwrap(), assignment(0, nicks, keys[0]))]
    } else {
        Seq::empty()
    };
    let second: Seq<(usize, Msg<M>)> = if occupants[1] is Some {
        seq![(occupants[1].unwrap(), assignment(1, nicks, keys[1]))]
    } else {
        Seq::empty()
    };
    first + second
}

/// `occupants` with every seat from `n` on left empty.
spec fn first_seats(occupants: Seq<Option<usize>>, n: int) -> Seq<Option<usize>> {
    seq![
        if n > 0 { occupants[0] } else { None },
        if n > 1 { occupants[1] } else { None },
    ]
}

/// The logs after the seat-assignment events are appended to the occupied
/// seats.
pub open spec fn assigned_logs<M>(
    logs: Seq<Seq<Msg<M>>>,
    occupants: Seq<Option<usize>>,
    nicks: [String; 2],
    keys: [String; 2],
) -> Seq<Seq<Msg<M>>> {
    seq![
        if occupants[0] is Some { logs[0].push(assignment(0, nicks, keys[0])) } else { logs[0] },
        if occupants[1] is Some { logs[1].push(assignment(1, nicks, keys[1])) } else { logs[1] },
    ]
}

/// `x` delivers to `user_id` a replay envelope around a copy of `m`.
pub open spec fn is_replay_of<M: Clone>(x: (usize, Msg<M>), user_id: usize, m: Msg<M>) -> bool {
    &&& x.0 == user_id
    &&& x.1 matches Msg::Replay { msg } && is_copy(m, *msg)
}

/// `sent` replays `log` to `user_id` in order, each entry in a replay
/// envelope, followed by the `snapshot` in one when there is one.
pub open spec fn replayed<M: Clone>(
    log: Seq<Msg<M>>,
    user_id: usize,
    snapshot: Option<M>,
    sent: Seq<(usize, Msg<M>)>,
) -> bool {
    &&& sent.len() == log.len() + if snapshot is Some { 1int } else { 0int }
    &&& forall|k: int| 0 <= k < log.len() ==> #[trigger] is_replay_of(sent[k], user_id, log[k])
    &&& snapshot is Some ==> is_replay_of(sent.last(), user_id, Msg::Game(snapshot.unwrap()))
}

/// `sent` replays `log` to `user_id`, followed by the engine's snapshot in a
/// replay envelope or by nothing; a snapshot comes only while the game
/// `running`.
pub open spec fn replays_with_snapshot<M: Clone>(
    log: Seq<Msg<M>>,
    user_id: usize,
    running: bool,
    sent: Seq<(usize, Msg<M>)>,
) -> bool {
    exists|snapshot: Option<M>|
        (snapshot is Some ==> running) && #[trigger] replayed(log, user_id, snapshot, sent)
}

impl<G, M> Room<G, M> {
    /// The connection bound to each seat.
    pub closed spec fn occupants(&self) -> Seq<Option<usize>> {
        self.user_ids@
    }

    /// The nick of each seat.
    pub closed spec fn nick_list(&self) -> [String; 2] {
        self.nicks
    }

    /// The room key.
    pub closed spec fn room_key_of(&self) -> String {
        self.room_key
    }

    /// The player key of each seat.
    pub closed spec fn player_keys_of(&self) -> [String; 2] {
        self.player_keys
    }

    /// The replay log of each seat.
    pub closed spec fn logs(&self) -> Seq<Seq<Msg<M>>> {
        seq![self.messages[0]@, self.messages[1]@]
    }

    /// The game engine, once the game has started.
    pub closed spec fn engine(&self) -> Option<G> {
        self.game
    }

    /// A game exists.
    pub closed spec fn is_started(&self) -> bool {
        self.game is Some
    }

    /// The game has reported itself finished.
    pub closed spec fn is_over(&self) -> bool {
        self.over
    }

    /// The room's invariant: a game that is over exists, and two occupied
    /// seats hold distinct connections.
    pub closed spec fn wf(&self) -> bool {
        &&& self.over ==> self.game is Some
        &&& (self.user_ids[0] is Some && self.user_ids[1] is Some) ==> self.user_ids[0]
            != self.user_ids[1]
    }

    /// The room is done: no game or a concluded one, and nobody connected.
    pub open spec fn is_finished(&self) -> bool {
        &&& (!self.is_started() || self.is_over())
        &&& self.occupants()[0] is None
        &&& self.occupants()[1] is None
    }

    /// What `describe` shows.
    pub open spec fn description(&self) -> Option<PGame> {
        if self.is_started() {
            if self.is_over() {
                None
            } else {
                Some(PGame::Game { nicks: self.nick_list() })
            }
        } else if self.occupants()[0] is Some {
            Some(PGame::Player { nick: self.nick_list()[0], key: self.room_key_of() })
        } else {
            None
        }
    }

    /// A room has exactly two seats, each with its log.
    pub proof fn lemma_two_seats(&self)
        ensures
            self.occupants().len() == 2,
            self.logs().len() == 2,
    {
    }

    /// `after` is `before` with the seat of `user_id` freed, and nothing
    /// else changed.
    pub open spec fn disconnected(before: Self, after: Self, user_id: usize) -> bool {
        &&& after.occupants() == before.occupants().update(
            seat_of(before.occupants(), user_id).unwrap() as int,
            None,
        )
        &&& after.logs() == before.logs()
        &&& after.nick_list() == before.nick_list()
        &&& after.is_started() == before.is_started()
        &&& after.is_over() == before.is_over()
        &&& after.engine() == before.engine()
        &&& after.room_key_of() == before.room_key_of()
        &&& after.player_keys_of() == before.player_keys_of()
    }

    /// `after` is `before` with `user_id` bound to the free `seat`, and `sent`
    /// replays that seat's log to it, with at most a snapshot after it.
    pub open spec fn rejoined(
        before: Self,
        after: Self,
        user_id: usize,
        seat: usize,
        sent: Seq<(usize, Msg<M>)>,
    ) -> bool where M: Clone {
        &&& before.occupants()[seat as int] is None
        &&& after.occupants() == before.occupants().update(seat as int, Some(user_id))
        &&& after.logs() == before.logs()
        &&& after.nick_list() == before.nick_list()
        &&& after.is_started() == before.is_started()
        &&& after.is_over() == before.is_over()
        &&& after.engine() == before.engine()
        &&& after.room_key_of() == before.room_key_of()
        &&& after.player_keys_of() == before.player_keys_of()
        &&& replays_with_snapshot(
            before.logs()[seat as int],
            user_id,
            before.is_started() && !before.is_over(),
            sent,
        )
    }

    /// A new room with `user_id` in seat `0` under `nick`, seat `1` empty, no
    /// game, empty logs and fresh keys.
    pub fn new(user_id: usize, nick: String) -> (r: Self)
        ensures
            r.wf(),
            r.occupants() == seq![Some(user_id), None::<usize>],
            r.nick_list()[0] == nick,
            r.nick_list()[1]@ == Seq::<char>::empty(),
            !r.is_started(),
            !r.is_over(),
            r.logs() == seq![Seq::<Msg<M>>::empty(), Seq::<Msg<M>>::empty()],
            is_key(r.room_key_of()@),
            is_key(r.player_keys_of()[0]@),
            is_key(r.player_keys_of()[1]@),
    {
        let r = Room {
            game: None,
            over: false,
            user_ids: [Some(user_id), None],
            nicks: [nick, String::new()],
            room_key: gen_key(),
            player_keys: [gen_key(), gen_key()],
            messages: [Vec::new(), Vec::new()],
        };
        assert(r.logs() =~= seq![Seq::<Msg<M>>::empty(), Seq::<Msg<M>>::empty()]);
        assert(r.occupants() =~= seq![Some(user_id), None::<usize>]);
        r
    }

    /// The room as the outside sees it: the game with both nicks while it
    /// runs, the first player and the room key while the second is awaited,
    /// and nothing otherwise.
    pub fn describe(&self) -> (r: Option<PGame>)
        ensures
            r == self.description(),
    {
        match self.game {
            Some(_) => {
                if self.over {
                    None
                } else {
                    Some(PGame::Game { nicks: copy_nicks(&self.nicks) })
                }
            },
            None => {
                if self.user_ids[0].is_some() {
                    Some(PGame::Player { nick: self.nicks[0].clone(), key: self.room_key.clone() })
                } else {
                    None
                }
            },
        }
    }

    /// The connection bound to `seat`.
    pub fn occupant(&self, seat: usize) -> (r: Option<usize>)
        requires
            seat < 2,
        ensures
            r == self.occupants()[seat as int],
    {
        self.user_ids[seat]
    }

    /// Whether a game exists.
    pub fn started(&self) -> (r: bool)
        ensures
            r == self.is_started(),
    {
        self.game.is_some()
    }

    /// Whether the room is done and may be disposed of.
    pub fn finished(&self) -> (r: bool)
        ensures
            r == self.is_finished(),
    {
        let game_finished = match self.game {
            Some(_) => self.over,
            None => true,
        };
        game_finished && self.user_ids[0].is_none() && self.user_ids[1].is_none()
    }

    /// The seat bound to `user_id`.
    fn find_player(&self, user_id: usize) -> (r: Option<usize>)
        ensures
            r == seat_of(self.occupants(), user_id),
    {
        if self.user_ids[0] == Some(user_id) {
            Some(0)
        } else if self.user_ids[1] == Some(user_id) {
            Some(1)
        } else {
            None
        }
    }

    /// Unbinds `user_id` from its seat; logs, game and keys stay.
    pub fn disconnect(&mut self, user_id: usize)
        requires
            seat_of(old(self).occupants(), user_id) is Some,
            old(self).wf(),
        ensures
            final(self).wf(),
            Self::disconnected(*old(self), *final(self), user_id),
    {
        let i = self.find_player(user_id).unwrap();
        self.user_ids[i] = None;
        assert(self.occupants() =~= old(self).occupants().update(i as int, None));
    }

    /// The durable state: the game, the nicks, the room key, the player keys
    /// and the logs. The connections are left behind.
    pub fn into_durable(self) -> (r: (Option<G>, [String; 2], String, [String; 2], [Vec<Msg<M>>; 2]))
        ensures
            r.0 == self.engine(),
            r.1 == self.nick_list(),
            r.2 == self.room_key_of(),
            r.3 == self.player_keys_of(),
            seq![r.4[0]@, r.4[1]@] == self.logs(),
    {
        (self.game, self.nicks, self.room_key, self.player_keys, self.messages)
    }
}

impl<G, M: Clone> Room<G, M> {
    /// Drains `events`, the `(seat, event)` pairs that the engine produced,
    /// oldest first: each is appended to its seat's log and, when that seat
    /// is occupied, delivered to its occupant. Events for a seat other than
    /// `0` or `1` are dropped.
    pub fn route(&mut self, events: Vec<(usize, M)>) -> (r: Vec<(usize, Msg<M>)>)
        requires
            old(self).wf(),
        ensures
            final(self).wf(),
            final(self).logs() == routed_logs(old(self).logs(), events@),
            copies(deliveries(old(self).occupants(), events@), r@),
            final(self).occupants() == old(self).occupants(),
            final(self).nick_list() == old(self).nick_list(),
            final(self).is_started() == old(self).is_started(),
            final(self).is_over() == old(self).is_over(),
            final(self).room_key_of() == old(self).room_key_of(),
            final(self).player_keys_of() == old(self).player_keys_of(),
            final(self).engine() == old(self).engine(),
    {
        let ghost all = events@;
        let ghost start = self.logs();
        let mut rest = events;
        let mut out: Vec<(usize, Msg<M>)> = Vec::new();
        while rest.len() > 0
            invariant
                self.wf(),
                all.len() >= rest@.len(),
                rest@ == all.subrange(all.len() - rest@.len(), all.len() as int),
                self.logs() == routed_logs(start, all.subrange(0, all.len() - rest@.len())),
                copies(
                    deliveries(old(self).occupants(), all.subrange(0, all.len() - rest@.len())),
                    out@,
                ),
                self.user_ids == old(self).user_ids,
                self.nicks == old(self).nicks,
                self.game == old(self).game,
                self.over == old(self).over,
                self.room_key == old(self).room_key,
                self.player_keys == old(self).player_keys,
            decreases rest.len(),
        {
            let ghost done = all.len() - rest@.len();
            let (seat, ev) = rest.remove(0);
            let ghost occ = old(self).occupants();
            let ghost d0 = deliveries(occ, all.subrange(0, done));
            let ghost d1 = deliveries(occ, all.subrange(0, done + 1));
            proof {
                assert(all.subrange(0, done + 1).drop_last() =~= all.subrange(0, done));
                assert(all.subrange(0, done + 1).last() == (seat, ev));
            }
            if seat < 2 {
                if let Some(user_id) = self.user_ids[seat] {
                    let copy = ev.clone();
                    proof {
                        assert(d1 == d0.push((user_id, Msg::Game(ev))));
                        assert(is_copy(Msg::Game(ev), Msg::Game(copy)));
                    }
                    out.push((user_id, Msg::Game(copy)));
                } else {
                    assert(d1 == d0);
                }
                self.messages[seat].push(Msg::Game(ev));
            } else {
                assert(d1 == d0);
            }
            proof {
                assert forall|k: int| 0 <= k < d1.len() implies #[trigger] is_copy_to(
                    d1[k],
                    out@[k],
                ) by {
                    if k < d0.len() {
                        assert(d1[k] == d0[k]);
                        assert(is_copy_to(d0[k], out@[k]));
                    }
                }
                assert(rest@ =~= all.subrange(all.len() - rest@.len(), all.len() as int));
                assert(self.logs() =~= routed_logs(start, all.subrange(0, done + 1)));
            }
        }
        proof {
            assert(all.subrange(0, all.len() as int) =~= all);
        }
        out
    }
    /// The replay of `seat`'s log for `user_id`: every logged event in a
    /// replay envelope, in log order, then `snapshot` in one if present.
    pub fn replay(&self, user_id: usize, seat: usize, snapshot: Option<M>) -> (r: Vec<(usize, Msg<M>)>)
        requires
            seat < 2,
        ensures
            replayed(self.logs()[seat as int], user_id, snapshot, r@),
    {
        let log = &self.messages[seat];
        let ghost expected = self.logs()[seat as int];
        assert(log@ == expected);
        let mut out: Vec<(usize, Msg<M>)> = Vec::new();
        let mut k: usize = 0;
        while k < log.len()
            invariant
                k <= log@.len(),
                log@ == expected,
                out@.len() == k,
                forall|j: int| 0 <= j < k ==> #[trigger] is_replay_of(out@[j], user_id, expected[j]),
            decreases log@.len() - k,
        {
            let copy = log[k].duplicate();
            out.push((user_id, Msg::Replay { msg: Box::new(copy) }));
            k = k + 1;
        }
        match snapshot {
            Some(ev) => {
                out.push((user_id, Msg::Replay { msg: Box::new(Msg::Game(ev)) }));
            },
            None => {},
        }
        out
    }
}

impl<G: GameEngine<M>, M: Clone> Room<G, M> {
    /// Records that the engine has finished, once it says so.
    fn refresh_over(&mut self)
        requires
            old(self).wf(),
            old(self).game is Some,
        ensures
            final(self).wf(),
            final(self).game == old(self).game,
            final(self).user_ids == old(self).user_ids,
            final(self).nicks == old(self).nicks,
            final(self).room_key == old(self).room_key,
            final(self).player_keys == old(self).player_keys,
            final(self).messages == old(self).messages,
            old(self).over ==> final(self).over,
    {
        let done = match &self.game {
            Some(game) => game.finished(),
            None => false,
        };
        if done {
            self.over = true;
        }
    }

    /// Drains the engine's queued events into the logs and the deliveries.
    fn messages(&mut self) -> (r: Vec<(usize, Msg<M>)>)
        requires
            old(self).wf(),
            old(self).game is Some,
        ensures
            final(self).wf(),
            drained(old(self).logs(), old(self).occupants(), final(self).logs(), r@),
            final(self).game is Some,
            final(self).user_ids == old(self).user_ids,
            final(self).nicks == old(self).nicks,
            final(self).room_key == old(self).room_key,
            final(self).player_keys == old(self).player_keys,
            final(self).over == old(self).over,
    {
        let events = match &mut self.game {
            Some(game) => game.messages(),
            None => Vec::new(),
        };
        let ghost ev = events@;
        let r = self.route(events);
        assert(routed_logs(old(self).logs(), ev) == self.logs());
        r
    }
    /// Advances a running game by one tick and routes what it produced; does
    /// nothing when no game runs.
    pub fn beat(&mut self) -> (r: Vec<(usize, Msg<M>)>)
        requires
            old(self).wf(),
        ensures
            final(self).wf(),
            if old(self).is_started() && !old(self).is_over() {
                &&& drained(old(self).logs(), old(self).occupants(), final(self).logs(), r@)
                &&& final(self).is_started()
                &&& final(self).occupants() == old(self).occupants()
                &&& final(self).nick_list() == old(self).nick_list()
                &&& final(self).room_key_of() == old(self).room_key_of()
                &&& final(self).player_keys_of() == old(self).player_keys_of()
            } else {
                &&& *final(self) == *old(self)
                &&& r@ == Seq::<(usize, Msg<M>)>::empty()
            },
    {
        if self.over {
            return Vec::new();
        }
        match &mut self.game {
            Some(game) => game.beat(),
            None => {
                return Vec::new();
            },
        }
        self.refresh_over();
        self.messages()
    }

    /// Forwards the action `msg` of `user_id`'s seat to the game and routes
    /// what it produced. Fails with `GameNotStarted` when no game exists and
    /// with `GameFinished` when the game is over, changing nothing.
    pub fn on_message(&mut self, user_id: usize, msg: M) -> (r: Result<
        Vec<(usize, Msg<M>)>,
        RoomError,
    >)
        requires
            old(self).wf(),
            seat_of(old(self).occupants(), user_id) is Some,
        ensures
            final(self).wf(),
            match r {
                Err(e) => {
                    &&& *final(self) == *old(self)
                    &&& e == if old(self).is_started() {
                        RoomError::GameFinished
                    } else {
                        RoomError::GameNotStarted
                    }
                    &&& !old(self).is_started() || old(self).is_over()
                },
                Ok(sent) => {
                    &&& old(self).is_started() && !old(self).is_over()
                    &&& drained(old(self).logs(), old(self).occupants(), final(self).logs(), sent@)
                    &&& final(self).is_started()
                    &&& final(self).occupants() == old(self).occupants()
                    &&& final(self).nick_list() == old(self).nick_list()
                    &&& final(self).room_key_of() == old(self).room_key_of()
                    &&& final(self).player_keys_of() == old(self).player_keys_of()
                },
            },
    {
        let i = self.find_player(user_id).unwrap();
        if self.game.is_none() {
            return Err(RoomError::GameNotStarted);
        }
        if self.over {
            return Err(RoomError::GameFinished);
        }
        match &mut self.game {
            Some(game) => game.on_message(i, msg),
            None => {},
        }
        self.refresh_over();
        Ok(self.messages())
    }
    /// Seats `user_id` under `nick` in seat `1` and starts `game`: each
    /// occupied seat gets its seat assignment (logged, and delivered), then
    /// the engine's startup events are routed. Fails with `AlreadyJoined`,
    /// changing nothing, when seat `1` is taken or a game already exists.
    pub fn connect(&mut self, user_id: usize, nick: String, game: G) -> (r: Result<
        Vec<(usize, Msg<M>)>,
        RoomError,
    >)
        requires
            old(self).wf(),
            old(self).occupants()[0] != Some(user_id),
        ensures
            final(self).wf(),
            match r {
                Err(e) => {
                    &&& e == RoomError::AlreadyJoined
                    &&& old(self).occupants()[1] is Some || old(self).is_started()
                    &&& *final(self) == *old(self)
                },
                Ok(sent) => {
                    let occupants = seq![old(self).occupants()[0], Some(user_id)];
                    let nicks = [old(self).nick_list()[0], nick];
                    let keys = old(self).player_keys_of();
                    let first = assignments::<M>(occupants, nicks, keys);
                    &&& old(self).occupants()[1] is None && !old(self).is_started()
                    &&& final(self).occupants() == occupants
                    &&& final(self).nick_list() == nicks
                    &&& final(self).is_started()
                    &&& final(self).room_key_of() == old(self).room_key_of()
                    &&& final(self).player_keys_of() == keys
                    &&& sent@.len() >= first.len()
                    &&& sent@.subrange(0, first.len() as int) == first
                    &&& drained(
                        assigned_logs(old(self).logs(), occupants, nicks, keys),
                        occupants,
                        final(self).logs(),
                        sent@.subrange(first.len() as int, sent@.len() as int),
                    )
                },
            },
    {
        if self.user_ids[1].is_some() || self.game.is_some() {
            return Err(RoomError::AlreadyJoined);
        }
        let ghost nick0 = nick;
        self.user_ids[1] = Some(user_id);
        self.nicks[1] = nick;
        let ghost occupants = seq![old(self).occupants()[0], Some(user_id)];
        let ghost nicks = [old(self).nick_list()[0], nick0];
        let ghost keys = self.player_keys;
        assert(self.occupants() =~= occupants);
        assert(self.nicks =~= nicks);
        let mut out: Vec<(usize, Msg<M>)> = Vec::new();
        let mut i: usize = 0;
        while i < 2
            invariant
                i <= 2,
                self.wf(),
                self.game is None,
                !self.over,
                self.user_ids@ == occupants,
                self.nicks == nicks,
                self.player_keys == keys,
                self.room_key == old(self).room_key,
                out@ == assignments::<M>(first_seats(occupants, i as int), nicks, keys),
                self.logs() == assigned_logs(
                    old(self).logs(),
                    first_seats(occupants, i as int),
                    nicks,
                    keys,
                ),
            decreases 2 - i,
        {
            if let Some(occupant) = self.user_ids[i] {
                let msg = Msg::Room {
                    you: i,
                    nicks: copy_nicks(&self.nicks),
                    key: self.player_keys[i].clone(),
                };
                let copy = msg.duplicate();
                self.messages[i].push(copy);
                out.push((occupant, msg));
            }
            i = i + 1;
            proof {
                let cur = first_seats(occupants, i as int);
                assert(self.logs() =~= assigned_logs(old(self).logs(), cur, nicks, keys));
                assert(out@ =~= assignments::<M>(cur, nicks, keys));
            }
        }
        assert(first_seats(occupants, 2) =~= occupants);
        let mut game = game;
        game.on_start();
        self.game = Some(game);
        self.refresh_over();
        let ghost first = out@;
        let mut rest = self.messages();
        let ghost tail = rest@;
        out.append(&mut rest);
        assert(out@.subrange(0, first.len() as int) =~= first);
        assert(out@.subrange(first.len() as int, out@.len() as int) =~= tail);
        Ok(out)
    }

    /// Seats `user_id` in `seat` again and replays to it everything logged
    /// for that seat, followed by the engine's snapshot for the seat if the
    /// game runs and the engine gives one. Fails with `AlreadyJoined`,
    /// changing nothing, when the seat is taken.
    pub fn rejoin(&mut self, user_id: usize, seat: usize) -> (r: Result<
        Vec<(usize, Msg<M>)>,
        RoomError,
    >)
        requires
            old(self).wf(),
            seat < 2,
            old(self).occupants()[1 - seat] != Some(user_id),
        ensures
            final(self).wf(),
            match r {
                Err(e) => {
                    &&& e == RoomError::AlreadyJoined
                    &&& old(self).occupants()[seat as int] is Some
                    &&& *final(self) == *old(self)
                },
                Ok(sent) => Self::rejoined(*old(self), *final(self), user_id, seat, sent@),
            },
    {
        if self.user_ids[seat].is_some() {
            return Err(RoomError::AlreadyJoined);
        }
        self.user_ids[seat] = Some(user_id);
        assert(self.occupants() =~= old(self).occupants().update(seat as int, Some(user_id)));
        let snapshot = if self.over {
            None
        } else {
            match &self.game {
                Some(game) => game.rejoin_msg(seat),
                None => None,
            }
        };
        let sent = self.replay(user_id, seat, snapshot);
        assert(replays_with_snapshot(
            old(self).logs()[seat as int],
            user_id,
            old(self).is_started() && !old(self).is_over(),
            sent@,
        ));
        Ok(sent)
    }
    /// Rebuilds a room from its durable state, as saved by `into_durable`:
    /// both seats start empty, since connections never outlive a reload.
    pub fn restore(
        game: Option<G>,
        nicks: [String; 2],
        room_key: String,
        player_keys: [String; 2],
        logs: [Vec<Msg<M>>; 2],
    ) -> (r: Self)
        ensures
            r.wf(),
            r.occupants() == seq![None::<usize>, None::<usize>],
            r.engine() == game,
            r.is_started() == game is Some,
            r.nick_list() == nicks,
            r.room_key_of() == room_key,
            r.player_keys_of() == player_keys,
            r.logs() == seq![logs[0]@, logs[1]@],
    {
        let over = match &game {
            Some(g) => g.finished(),
            None => false,
        };
        let r = Room { game, over, user_ids: [None, None], nicks, room_key, player_keys, messages: logs };
        assert(r.occupants() =~= seq![None::<usize>, None::<usize>]);
        r
    }
}

} // verus!
