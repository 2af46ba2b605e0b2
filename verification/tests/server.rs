use netcore::proto::{Action, Cmd, Orientation, Pack, PlayerInfo};
use netcore::server::{dispatch, handle, send_player};

const MAP_PATH: &str = "resources/maps/townCompress2.tmx";
const MAP_CONTENT: &str = "<?xml version=\"1.0\"?><map width=\"8\" height=\"8\"/>";

fn bob() -> PlayerInfo {
    PlayerInfo { name: String::from("bob"), x: 1, y: 2, orientation: Orientation::South }
}

#[test]
fn dispatch_is_total_over_the_vocabulary() {
    let cases: Vec<(Cmd, bool)> = vec![
        (Cmd::Nothing, false),
        (Cmd::Connect(String::from("alice 123 sig")), true),
        (Cmd::TransferMap(String::from("p"), String::from("m")), false),
        (Cmd::ReceivedMap, true),
        (Cmd::CreatePlayer(vec![bob()]), false),
        (Cmd::InsertPlayer(bob()), false),
        (Cmd::Action(Action::Move(Orientation::North)), false),
    ];
    for (cmd, answered) in cases {
        let r = dispatch(cmd, MAP_PATH, MAP_CONTENT, vec![bob()]);
        assert_eq!(r.is_some(), answered);
    }
}

#[test]
fn handshake_is_answered_with_the_map() {
    let bin = Pack::new(Cmd::Connect(String::from("alice 123 sig")), 0, None).to_bin();
    let reply = handle(bin, MAP_PATH, MAP_CONTENT, Vec::new()).expect("a handshake gets the map");
    assert_eq!(
        reply,
        Pack::new(
            Cmd::TransferMap(String::from(MAP_PATH), String::from(MAP_CONTENT)),
            0,
            None,
        ),
    );
}

#[test]
fn map_acknowledgment_is_answered_with_the_roster() {
    let bin = Pack::new(Cmd::ReceivedMap, 0, None).to_bin();
    let reply = handle(bin, MAP_PATH, MAP_CONTENT, vec![bob()]).expect("an ack gets the roster");
    assert_eq!(reply, Pack::new(Cmd::CreatePlayer(vec![bob()]), 0, None));
}

#[test]
fn empty_roster_is_sent_as_such() {
    let reply = send_player(Vec::new()).expect("the roster reply always exists");
    assert_eq!(reply, Pack::new(Cmd::CreatePlayer(Vec::new()), 0, None));
}

#[test]
fn malformed_frames_are_discarded() {
    assert!(handle(vec![1, 2, 3], MAP_PATH, MAP_CONTENT, Vec::new()).is_none());
    assert!(handle(Vec::new(), MAP_PATH, MAP_CONTENT, Vec::new()).is_none());
}

#[test]
fn echoed_client_bound_commands_get_no_reply() {
    for cmd in [
        Cmd::Nothing,
        Cmd::TransferMap(String::from("p"), String::from("m")),
        Cmd::CreatePlayer(Vec::new()),
    ] {
        let bin = Pack::new(cmd, 3, None).to_bin();
        assert!(handle(bin, MAP_PATH, MAP_CONTENT, Vec::new()).is_none());
    }
}
