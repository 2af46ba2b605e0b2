use netcore::proto::{Action, Cmd, Orientation, Pack, PlayerInfo};

fn round_trips(p: Pack) {
    let bytes = p.to_bin();
    let back = Pack::from_bin(bytes).expect("a framed pack must decode");
    assert_eq!(back, p);
}

fn info(name: &str, x: i32, y: i32, o: Orientation) -> PlayerInfo {
    PlayerInfo { name: String::from(name), x, y, orientation: o }
}

#[test]
fn round_trip_nothing() {
    round_trips(Pack::new(Cmd::Nothing, 0, None));
    round_trips(Pack::new(Cmd::Nothing, u64::MAX, Some(String::from("127.0.0.1:7777"))));
}

#[test]
fn round_trip_connect() {
    round_trips(Pack::new(Cmd::Connect(String::from("alice 123 sig")), 1, None));
    round_trips(Pack::new(Cmd::Connect(String::from("")), 2, None));
    round_trips(Pack::new(Cmd::Connect(String::from("nøn-ascii ✓")), 3, None));
}

#[test]
fn round_trip_transfer_map() {
    round_trips(Pack::new(
        Cmd::TransferMap(String::from("resources/maps/townCompress2.tmx"), String::from("<map/>")),
        0,
        None,
    ));
    round_trips(Pack::new(Cmd::TransferMap(String::from(""), String::from("")), 0, None));
}

#[test]
fn round_trip_received_map() {
    round_trips(Pack::new(Cmd::ReceivedMap, 9, None));
}

#[test]
fn round_trip_create_player_empty_roster() {
    round_trips(Pack::new(Cmd::CreatePlayer(Vec::new()), 0, None));
}

#[test]
fn round_trip_create_player_roster() {
    round_trips(Pack::new(
        Cmd::CreatePlayer(vec![
            info("bob", 3, 4, Orientation::East),
            info("carol", -7, 0, Orientation::South),
        ]),
        5,
        Some(String::from("slot-2")),
    ));
}

#[test]
fn round_trip_insert_player() {
    round_trips(Pack::new(
        Cmd::InsertPlayer(info("dave", i32::MIN, i32::MAX, Orientation::West)),
        0,
        None,
    ));
}

#[test]
fn round_trip_action_each_orientation() {
    for o in [Orientation::North, Orientation::South, Orientation::East, Orientation::West] {
        round_trips(Pack::new(Cmd::Action(Action::Move(o)), 0, None));
    }
}

#[test]
fn exact_bytes_of_nothing() {
    let bytes = Pack::new(Cmd::Nothing, 7, None).to_bin();
    assert_eq!(bytes, vec![7, 0, 0, 0, 0, 0, 0, 0, 0, 0]);
}

#[test]
fn exact_bytes_of_connect() {
    let bytes = Pack::new(Cmd::Connect(String::from("hi")), 0, None).to_bin();
    let expected = vec![
        0, 0, 0, 0, 0, 0, 0, 0, // id
        0, // no routing field
        1, // Connect tag
        2, 0, 0, 0, 0, 0, 0, 0, // string byte length
        b'h', b'i',
    ];
    assert_eq!(bytes, expected);
}

#[test]
fn exact_bytes_of_position_offset() {
    let bytes = Pack::new(Cmd::InsertPlayer(info("", 0, -1, Orientation::North)), 0, None).to_bin();
    let expected = vec![
        0, 0, 0, 0, 0, 0, 0, 0, // id
        0, // no routing field
        5, // InsertPlayer tag
        0, 0, 0, 0, 0, 0, 0, 0, // empty name
        0x00, 0x00, 0x00, 0x80, // x = 0 shifted by 2^31
        0xff, 0xff, 0xff, 0x7f, // y = -1 shifted by 2^31
        0, // facing north
    ];
    assert_eq!(bytes, expected);
}

#[test]
fn decode_rejects_empty() {
    assert!(Pack::from_bin(Vec::new()).is_err());
}

#[test]
fn decode_rejects_truncation_everywhere() {
    let bytes = Pack::new(Cmd::Connect(String::from("alice 123 sig")), 1, None).to_bin();
    for cut in 0..bytes.len() {
        let prefix = bytes[..cut].to_vec();
        assert!(Pack::from_bin(prefix).is_err(), "a {}-byte prefix must not decode", cut);
    }
}

#[test]
fn decode_rejects_bad_command_tag() {
    let mut bytes = Pack::new(Cmd::Nothing, 0, None).to_bin();
    let tag_at = bytes.len() - 1;
    for bad in [7u8, 8, 100, 255] {
        bytes[tag_at] = bad;
        assert!(Pack::from_bin(bytes.clone()).is_err());
    }
}

#[test]
fn decode_rejects_bad_routing_flag() {
    let mut bytes = Pack::new(Cmd::Nothing, 0, None).to_bin();
    bytes[8] = 2;
    assert!(Pack::from_bin(bytes).is_err());
}

#[test]
fn decode_rejects_bad_orientation_and_action() {
    let mut bytes = Pack::new(Cmd::Action(Action::Move(Orientation::West)), 0, None).to_bin();
    let last = bytes.len() - 1;
    bytes[last] = 4; // no such facing
    assert!(Pack::from_bin(bytes.clone()).is_err());
    bytes[last] = 3;
    bytes[last - 1] = 1; // no such action kind
    assert!(Pack::from_bin(bytes).is_err());
}

#[test]
fn decode_rejects_invalid_utf8() {
    let mut bytes = Pack::new(Cmd::Connect(String::from("ab")), 0, None).to_bin();
    let last = bytes.len() - 1;
    bytes[last] = 0xff; // not valid UTF-8
    assert!(Pack::from_bin(bytes).is_err());
}

#[test]
fn decode_rejects_trailing_bytes() {
    let mut bytes = Pack::new(Cmd::ReceivedMap, 0, None).to_bin();
    bytes.push(0);
    assert!(Pack::from_bin(bytes).is_err());
}

#[test]
fn decode_rejects_overlong_string_length() {
    let mut bytes = Pack::new(Cmd::Connect(String::from("ab")), 0, None).to_bin();
    bytes[10] = 200; // claimed string length far past the buffer
    assert!(Pack::from_bin(bytes).is_err());
}
