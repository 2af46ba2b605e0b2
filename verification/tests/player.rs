use netcore::io::IO;
use netcore::player::{requested_orientation, PlayerSystem, MOVEMENT_DELAY_MS};
use netcore::proto::{Action, Cmd, Orientation, Pack, PlayerInfo};

fn info(name: &str, x: i32, y: i32, o: Orientation) -> PlayerInfo {
    PlayerInfo { name: String::from(name), x, y, orientation: o }
}

/// A synchronizer that already controls a local player at the given tile.
fn synchronizer_at(x: i32, y: i32, o: Orientation) -> (PlayerSystem, IO) {
    let mut sync = PlayerSystem::new(String::from("alice"));
    let mut io = IO::new();
    io.i.push(Pack::new(Cmd::InsertPlayer(info("alice", x, y, o)), 0, None));
    let spawned = sync.drain_inbound(&mut io, 0);
    assert_eq!(spawned.len(), 1);
    (sync, io)
}

#[test]
fn rejected_move_turns_but_stays() {
    let (mut sync, mut io) = synchronizer_at(0, 0, Orientation::North);
    assert_eq!(requested_orientation(0, 1), Some(Orientation::North));
    let moved = sync.movement_tick(&mut io, 0, 1, MOVEMENT_DELAY_MS, false);
    assert!(!moved);
    let p1 = sync.p1.clone().unwrap();
    assert_eq!(p1.orientation, Orientation::North);
    assert_eq!((p1.x, p1.y), (0, 0));
    assert_eq!(io.o.len(), 0);
    // A rejected move does not restart the cooldown: it still measures from
    // the last accepted move (here, from the spawn).
    assert_eq!(sync.timer, Some(0));
}

#[test]
fn rejected_attempt_keeps_the_cooldown_running() {
    let (mut sync, mut io) = synchronizer_at(0, 0, Orientation::North);
    assert!(!sync.movement_tick(&mut io, 0, 1, MOVEMENT_DELAY_MS, false));
    // The rejection left the window open, so the very next instant may move.
    assert!(sync.movement_tick(&mut io, 0, 1, MOVEMENT_DELAY_MS + 1, true));
    let p1 = sync.p1.clone().unwrap();
    assert_eq!((p1.x, p1.y), (0, 1));
    assert_eq!(sync.timer, Some(MOVEMENT_DELAY_MS + 1));
    assert_eq!(io.o.len(), 1);
}

#[test]
fn accepted_move_advances_and_notifies() {
    let (mut sync, mut io) = synchronizer_at(0, 0, Orientation::North);
    let moved = sync.movement_tick(&mut io, 0, 1, MOVEMENT_DELAY_MS, true);
    assert!(moved);
    let p1 = sync.p1.clone().unwrap();
    assert_eq!(p1.orientation, Orientation::North);
    assert_eq!((p1.x, p1.y), (0, 1));
    let sent = io.o.pop();
    assert_eq!(sent, vec![Pack::new(Cmd::Action(Action::Move(Orientation::North)), 0, None)]);
}

#[test]
fn second_attempt_within_the_window_does_nothing() {
    let (mut sync, mut io) = synchronizer_at(0, 0, Orientation::North);
    let first = sync.movement_tick(&mut io, 0, 1, MOVEMENT_DELAY_MS, true);
    assert!(first);
    let again = sync.movement_tick(&mut io, 1, 0, 2 * MOVEMENT_DELAY_MS - 1, true);
    assert!(!again);
    let p1 = sync.p1.clone().unwrap();
    assert_eq!((p1.x, p1.y), (0, 1));
    assert_eq!(p1.orientation, Orientation::North);
    assert_eq!(io.o.len(), 1);
}

#[test]
fn cooldown_expiry_allows_the_next_move() {
    let (mut sync, mut io) = synchronizer_at(0, 0, Orientation::North);
    assert!(sync.movement_tick(&mut io, 0, 1, MOVEMENT_DELAY_MS, true));
    assert!(sync.movement_tick(&mut io, 1, 0, 2 * MOVEMENT_DELAY_MS, true));
    let p1 = sync.p1.clone().unwrap();
    assert_eq!((p1.x, p1.y), (1, 1));
    assert_eq!(p1.orientation, Orientation::East);
    assert_eq!(io.o.len(), 2);
}

#[test]
fn dead_input_does_nothing() {
    let (mut sync, mut io) = synchronizer_at(4, 5, Orientation::West);
    assert_eq!(requested_orientation(0, 0), None);
    let moved = sync.movement_tick(&mut io, 0, 0, 10 * MOVEMENT_DELAY_MS, true);
    assert!(!moved);
    let p1 = sync.p1.clone().unwrap();
    assert_eq!((p1.x, p1.y), (4, 5));
    assert_eq!(p1.orientation, Orientation::West);
    assert_eq!(io.o.len(), 0);
}

#[test]
fn no_local_player_means_no_movement() {
    let mut sync = PlayerSystem::new(String::from("alice"));
    let mut io = IO::new();
    let moved = sync.movement_tick(&mut io, 0, 1, 10 * MOVEMENT_DELAY_MS, true);
    assert!(!moved);
    assert_eq!(io.o.len(), 0);
}

#[test]
fn each_axis_sign_maps_to_its_facing() {
    assert_eq!(requested_orientation(0, 2), Some(Orientation::North));
    assert_eq!(requested_orientation(0, -2), Some(Orientation::South));
    assert_eq!(requested_orientation(2, 0), Some(Orientation::East));
    assert_eq!(requested_orientation(-2, 0), Some(Orientation::West));
    // Vertical input wins when both axes are pushed.
    assert_eq!(requested_orientation(-2, 1), Some(Orientation::North));
}

#[test]
fn drain_keeps_unowned_commands_in_order() {
    let mut sync = PlayerSystem::new(String::from("alice"));
    let mut io = IO::new();
    let keep_a = Pack::new(Cmd::Nothing, 1, None);
    let keep_b = Pack::new(Cmd::ReceivedMap, 2, None);
    io.i.push(keep_a.clone());
    io.i.push(Pack::new(Cmd::InsertPlayer(info("bob", 3, 3, Orientation::East)), 3, None));
    io.i.push(keep_b.clone());
    io.i.push(Pack::new(Cmd::InsertPlayer(info("alice", 0, 0, Orientation::North)), 4, None));

    let spawned = sync.drain_inbound(&mut io, 42);
    assert_eq!(
        spawned,
        vec![info("bob", 3, 3, Orientation::East), info("alice", 0, 0, Orientation::North)],
    );
    // Only the InsertPlayer items left; the rest survive in their order.
    assert_eq!(io.i.pop(), vec![keep_a, keep_b]);
    assert_eq!(io.o.len(), 0);

    // The info bearing the configured name became the local player and its
    // cooldown started at the drain instant.
    let p1 = sync.p1.clone().unwrap();
    assert_eq!((p1.x, p1.y), (0, 0));
    assert_eq!(sync.timer, Some(42));
    assert_eq!(sync.local_position(), Some((0, 0)));
}

#[test]
fn drain_without_matching_name_keeps_no_local_player() {
    let mut sync = PlayerSystem::new(String::from("alice"));
    let mut io = IO::new();
    io.i.push(Pack::new(Cmd::InsertPlayer(info("bob", 3, 3, Orientation::East)), 0, None));
    let spawned = sync.drain_inbound(&mut io, 9);
    assert_eq!(spawned.len(), 1);
    assert!(sync.p1.is_none());
    assert_eq!(sync.timer, None);
    assert_eq!(sync.local_position(), None);
}
