use minefield_game::keys::gen_key;
use minefield_game::{GameEngine, Msg, PGame, Room, RoomError};

#[derive(Clone, Debug, PartialEq)]
enum Ev {
    PhaseOne { tiles: Vec<u8> },
    StartMove,
    Hand { hand: Vec<u8> },
    EndMove,
    WaitForPhaseTwo,
    Discard { tile: u8 },
    Abort { culprit: usize, description: String },
}

/// A scripted engine: deals on start, answers a hand, aborts on an early
/// discard, and finishes on a discard afterwards.
struct Script {
    queue: Vec<(usize, Ev)>,
    finished: bool,
    ticks: usize,
}

impl Script {
    fn new() -> Self {
        Script { queue: vec![], finished: false, ticks: 0 }
    }
}

impl GameEngine<Ev> for Script {
    fn on_start(&mut self) {
        for seat in 0..2 {
            let tiles: Vec<u8> = (0..34).map(|t| t as u8 + seat as u8).collect();
            self.queue.push((seat, Ev::PhaseOne { tiles }));
            self.queue.push((seat, Ev::StartMove));
        }
    }

    fn beat(&mut self) {
        self.ticks += 1;
        self.queue.push((0, Ev::StartMove));
        self.queue.push((1, Ev::StartMove));
    }

    fn finished(&self) -> bool {
        self.finished
    }

    fn on_message(&mut self, seat: usize, msg: Ev) {
        match msg {
            Ev::Hand { hand } => {
                self.queue.push((seat, Ev::EndMove));
                self.queue.push((seat, Ev::Hand { hand }));
                self.queue.push((seat, Ev::WaitForPhaseTwo));
            }
            Ev::Discard { .. } => {
                for s in 0..2 {
                    self.queue.push((
                        s,
                        Ev::Abort { culprit: seat, description: "discard too soon".to_owned() },
                    ));
                }
                self.finished = true;
            }
            _ => {}
        }
    }

    fn messages(&mut self) -> Vec<(usize, Ev)> {
        std::mem::take(&mut self.queue)
    }

    fn rejoin_msg(&self, _seat: usize) -> Option<Ev> {
        Some(Ev::StartMove)
    }
}

fn replayed(msg: &Msg<Ev>) -> Option<&Msg<Ev>> {
    match msg {
        Msg::Replay { msg } => Some(msg),
        _ => None,
    }
}

fn joined() -> (Room<Script, Ev>, Vec<(usize, Msg<Ev>)>) {
    let mut room = Room::new(33, "Akagi".to_owned());
    let messages = room.connect(55, "Washizu".to_owned(), Script::new()).unwrap();
    (room, messages)
}

#[test]
fn test_new_game() {
    let room: Room<Script, Ev> = Room::new(33, "Akagi".to_owned());
    assert_eq!(room.finished(), false);
    assert_eq!(
        room.describe(),
        Some(PGame::Player { nick: "Akagi".to_owned(), key: room.room_key.clone() })
    );
}

#[test]
fn test_join() {
    let (room, messages) = joined();

    assert_eq!(
        room.describe(),
        Some(PGame::Game { nicks: ["Akagi".to_owned(), "Washizu".to_owned()] })
    );

    assert_eq!(messages.len(), 6);
    assert!(matches!(messages[0], (33, Msg::Room { .. })));
    assert!(matches!(messages[1], (55, Msg::Room { .. })));
    assert!(matches!(messages[2], (33, Msg::Game(Ev::PhaseOne { .. }))));
    assert!(matches!(messages[3], (33, Msg::Game(Ev::StartMove))));
    assert!(matches!(messages[4], (55, Msg::Game(Ev::PhaseOne { .. }))));
    assert!(matches!(messages[5], (55, Msg::Game(Ev::StartMove))));
}

#[test]
fn test_rejoin() {
    let (mut room, _) = joined();
    room.disconnect(55);

    assert_eq!(room.occupant(1), None);
    let messages = room.rejoin(55, 1).unwrap();
    assert_eq!(room.occupant(1), Some(55));
    assert_eq!(messages.len(), 4);
    assert!(matches!(messages[0], (55, Msg::Replay { .. })));
    assert!(matches!(replayed(&messages[0].1).unwrap(), Msg::Room { .. }));
    assert!(matches!(messages[1], (55, Msg::Replay { .. })));
    assert!(matches!(replayed(&messages[1].1).unwrap(), Msg::Game(Ev::PhaseOne { .. })));
    assert!(matches!(messages[2], (55, Msg::Replay { .. })));
    assert!(matches!(replayed(&messages[2].1).unwrap(), Msg::Game(Ev::StartMove)));

    // the snapshot comes last
    assert!(matches!(messages[3], (55, Msg::Replay { .. })));
    assert!(matches!(replayed(&messages[3].1).unwrap(), Msg::Game(Ev::StartMove)));
}

#[test]
fn test_on_message() {
    let (mut room, messages) = joined();

    let hand = match messages[2].1 {
        Msg::Game(Ev::PhaseOne { ref tiles, .. }) => tiles[0..13].to_vec(),
        _ => unreachable!("wrong message"),
    };

    let messages = room.on_message(33, Ev::Hand { hand: hand.clone() }).unwrap();

    assert_eq!(
        messages,
        vec![
            (33, Msg::Game(Ev::EndMove)),
            (33, Msg::Game(Ev::Hand { hand: hand.clone() })),
            (33, Msg::Game(Ev::WaitForPhaseTwo)),
        ]
    );
}

#[test]
fn test_on_message_abort() {
    let (mut room, _) = joined();
    let messages = room.on_message(33, Ev::Discard { tile: 1 }).unwrap();
    println!("{:?}", messages);
    assert_eq!(
        messages,
        vec![
            (
                33,
                Msg::Game(Ev::Abort { culprit: 0, description: "discard too soon".to_owned() })
            ),
            (
                55,
                Msg::Game(Ev::Abort { culprit: 0, description: "discard too soon".to_owned() })
            ),
        ]
    );
    assert_eq!(room.finished(), false);
    assert_eq!(room.describe(), None);

    room.disconnect(33);
    room.disconnect(55);
    assert_eq!(room.finished(), true);
    assert_eq!(room.describe(), None);
}

#[test]
fn new_room_has_letter_keys_and_waits() {
    let room: Room<Script, Ev> = Room::new(33, "Akagi".to_owned());
    for key in [&room.room_key, &room.player_keys[0], &room.player_keys[1]] {
        assert_eq!(key.chars().count(), 10);
        assert!(key.chars().all(|c| c.is_ascii_alphabetic()));
    }
    assert!(!room.started());
    assert_eq!(room.occupant(0), Some(33));
    assert_eq!(room.occupant(1), None);
}

#[test]
fn gen_key_is_ten_letters() {
    let key = gen_key();
    assert_eq!(key.len(), 10);
    assert!(key.chars().all(|c| c.is_ascii_alphabetic()));
}

#[test]
fn connect_twice_is_refused() {
    let (mut room, _) = joined();
    let err = room.connect(77, "Ichikawa".to_owned(), Script::new()).unwrap_err();
    assert_eq!(err, RoomError::AlreadyJoined);
}

#[test]
fn connect_to_started_room_with_free_seat_is_refused() {
    let (mut room, _) = joined();
    room.disconnect(55);
    let err = room.connect(77, "Ichikawa".to_owned(), Script::new()).unwrap_err();
    assert_eq!(err, RoomError::AlreadyJoined);
    assert_eq!(room.occupant(1), None);
}

#[test]
fn seat_assignment_carries_nicks_and_seat_key() {
    let (room, messages) = joined();
    let nicks = ["Akagi".to_owned(), "Washizu".to_owned()];
    assert_eq!(
        messages[0],
        (33, Msg::Room { you: 0, nicks: nicks.clone(), key: room.player_keys[0].clone() })
    );
    assert_eq!(
        messages[1],
        (55, Msg::Room { you: 1, nicks, key: room.player_keys[1].clone() })
    );
}

#[test]
fn connect_after_first_player_left_assigns_only_second_seat() {
    let mut room: Room<Script, Ev> = Room::new(33, "Akagi".to_owned());
    room.disconnect(33);
    let messages = room.connect(55, "Washizu".to_owned(), Script::new()).unwrap();
    assert_eq!(messages.len(), 3);
    assert!(matches!(messages[0], (55, Msg::Room { you: 1, .. })));
    assert!(matches!(messages[1], (55, Msg::Game(Ev::PhaseOne { .. }))));
    assert!(matches!(messages[2], (55, Msg::Game(Ev::StartMove))));

    // seat 0 still gets its whole history on rejoin
    let replay = room.rejoin(33, 0).unwrap();
    assert_eq!(replay.len(), 3);
    assert!(matches!(replayed(&replay[0].1).unwrap(), Msg::Game(Ev::PhaseOne { .. })));
    assert!(matches!(replayed(&replay[1].1).unwrap(), Msg::Game(Ev::StartMove)));
    assert!(matches!(replayed(&replay[2].1).unwrap(), Msg::Game(Ev::StartMove)));
}

#[test]
fn rejoin_taken_seat_is_refused() {
    let (mut room, _) = joined();
    assert_eq!(room.rejoin(77, 0).unwrap_err(), RoomError::AlreadyJoined);
    assert_eq!(room.occupant(0), Some(33));
}

#[test]
fn rejoin_before_game_replays_nothing() {
    let mut room: Room<Script, Ev> = Room::new(33, "Akagi".to_owned());
    room.disconnect(33);
    let replay = room.rejoin(44, 0).unwrap();
    assert!(replay.is_empty());
    assert_eq!(room.occupant(0), Some(44));
}

#[test]
fn rejoin_after_game_over_has_no_snapshot() {
    let (mut room, _) = joined();
    room.on_message(33, Ev::Discard { tile: 1 }).unwrap();
    room.disconnect(55);
    let replay = room.rejoin(56, 1).unwrap();
    // seat assignment, two startup events, the abort: no snapshot
    assert_eq!(replay.len(), 4);
    assert!(matches!(replayed(&replay[3].1).unwrap(), Msg::Game(Ev::Abort { culprit: 0, .. })));
}

#[test]
fn on_message_before_game_fails() {
    let mut room: Room<Script, Ev> = Room::new(33, "Akagi".to_owned());
    assert_eq!(room.on_message(33, Ev::StartMove).unwrap_err(), RoomError::GameNotStarted);
}

#[test]
fn on_message_after_game_over_fails() {
    let (mut room, _) = joined();
    room.on_message(33, Ev::Discard { tile: 1 }).unwrap();
    assert_eq!(room.on_message(55, Ev::StartMove).unwrap_err(), RoomError::GameFinished);
}

#[test]
fn beat_routes_to_connected_seats_and_logs_all() {
    let (mut room, _) = joined();
    room.disconnect(33);
    let messages = room.beat();
    assert_eq!(messages, vec![(55, Msg::Game(Ev::StartMove))]);
    let replay = room.rejoin(34, 0).unwrap();
    // seat assignment, two startup events, the tick's event, the snapshot
    assert_eq!(replay.len(), 5);
    assert!(matches!(replayed(&replay[3].1).unwrap(), Msg::Game(Ev::StartMove)));
}

#[test]
fn beat_without_running_game_does_nothing() {
    let mut room: Room<Script, Ev> = Room::new(33, "Akagi".to_owned());
    assert!(room.beat().is_empty());
    let (mut room, _) = joined();
    room.on_message(33, Ev::Discard { tile: 1 }).unwrap();
    assert!(room.beat().is_empty());
}

#[test]
fn finished_only_when_game_over_and_empty() {
    let mut room: Room<Script, Ev> = Room::new(33, "Akagi".to_owned());
    room.disconnect(33);
    assert!(room.finished());
    assert_eq!(room.describe(), None);

    let (mut room, _) = joined();
    room.disconnect(33);
    room.disconnect(55);
    assert!(!room.finished());
    assert!(room.started());
}

#[test]
fn route_logs_every_event_and_drops_unknown_seats() {
    let mut room: Room<Script, Ev> = Room::new(33, "Akagi".to_owned());
    let sent = room.route(vec![(1, Ev::EndMove), (0, Ev::StartMove), (2, Ev::WaitForPhaseTwo)]);
    assert_eq!(sent, vec![(33, Msg::Game(Ev::StartMove))]);
    let replay = room.replay(9, 1, None);
    assert_eq!(replay, vec![(9, Msg::Replay { msg: Box::new(Msg::Game(Ev::EndMove)) })]);
}

#[test]
fn replay_appends_snapshot() {
    let mut room: Room<Script, Ev> = Room::new(33, "Akagi".to_owned());
    room.route(vec![(0, Ev::EndMove)]);
    let replay = room.replay(7, 0, Some(Ev::StartMove));
    assert_eq!(
        replay,
        vec![
            (7, Msg::Replay { msg: Box::new(Msg::Game(Ev::EndMove)) }),
            (7, Msg::Replay { msg: Box::new(Msg::Game(Ev::StartMove)) }),
        ]
    );
}

#[test]
fn duplicate_copies_nested_events() {
    let m: Msg<Ev> = Msg::Replay { msg: Box::new(Msg::Game(Ev::Discard { tile: 3 })) };
    assert_eq!(m.duplicate(), m);
}

#[test]
fn reload_keeps_durable_state_and_empties_seats() {
    let (room, _) = joined();
    let room_key = room.room_key.clone();
    let (game, nicks, key, player_keys, logs) = room.into_durable();
    assert_eq!(key, room_key);
    assert_eq!(logs[0].len(), 3);
    assert_eq!(logs[1].len(), 3);
    let mut room = Room::restore(game, nicks, key, player_keys, logs);
    assert_eq!(room.occupant(0), None);
    assert_eq!(room.occupant(1), None);
    assert!(room.started());
    assert!(!room.finished());
    assert_eq!(room.room_key, room_key);
    let replay = room.rejoin(33, 0).unwrap();
    assert_eq!(replay.len(), 4);
    assert!(matches!(replayed(&replay[0].1).unwrap(), Msg::Room { you: 0, .. }));
}

#[test]
fn reload_of_finished_game_is_finished() {
    let (mut room, _) = joined();
    room.on_message(33, Ev::Discard { tile: 1 }).unwrap();
    let (game, nicks, key, player_keys, logs) = room.into_durable();
    let room = Room::restore(game, nicks, key, player_keys, logs);
    assert!(room.finished());
    assert_eq!(room.describe(), None);
}
