use netcore::client::{inbound_event, ClientSystem, ClientSystemDesc, InboundOutcome, NetEvent};
use netcore::io::IO;
use netcore::proto::{Cmd, Pack};

#[test]
fn first_send_window_emits_one_connect_and_flips_the_status() {
    let mut driver = ClientSystemDesc::default().build();
    assert!(!driver.status.connected);
    let mut io = IO::new();
    io.o.push(Pack::new(Cmd::ReceivedMap, 0, None));
    let sent = driver.outbound_tick(&mut io, true, "alice");
    assert!(driver.status.connected);
    assert_eq!(sent.len(), 1);
    assert_eq!(
        sent[0],
        Pack::new(Cmd::Connect(String::from("alice 1580235330 SignatureHere")), 0, None),
    );
    // The queued pack waits for the next window: connecting and draining
    // never happen in the same tick.
    assert_eq!(io.o.len(), 1);
}

#[test]
fn connected_send_window_drains_the_outbound_queue_in_order() {
    let mut driver = ClientSystem::new();
    let mut io = IO::new();
    let first = Pack::new(Cmd::ReceivedMap, 1, None);
    let second = Pack::new(Cmd::Nothing, 2, None);
    io.o.push(first.clone());
    io.o.push(second.clone());
    driver.outbound_tick(&mut io, true, "alice"); // handshake window
    let sent = driver.outbound_tick(&mut io, true, "alice");
    assert_eq!(sent, vec![first, second]);
    assert_eq!(io.o.len(), 0);
}

#[test]
fn closed_send_window_sends_nothing() {
    let mut driver = ClientSystem::new();
    let mut io = IO::new();
    io.o.push(Pack::new(Cmd::Nothing, 0, None));
    let sent = driver.outbound_tick(&mut io, false, "alice");
    assert!(sent.is_empty());
    assert!(!driver.status.connected);
    assert_eq!(io.o.len(), 1);
}

#[test]
fn data_messages_are_queued_in_arrival_order() {
    let mut io = IO::new();
    let a = Pack::new(Cmd::ReceivedMap, 1, None);
    let b = Pack::new(Cmd::Nothing, 2, None);
    assert_eq!(inbound_event(&mut io, NetEvent::Message(a.to_bin())), InboundOutcome::Queued);
    assert_eq!(inbound_event(&mut io, NetEvent::Message(b.to_bin())), InboundOutcome::Queued);
    assert_eq!(io.i.pop(), vec![a, b]);
}

#[test]
fn the_acknowledgment_token_is_discarded() {
    let mut io = IO::new();
    let r = inbound_event(&mut io, NetEvent::Message(vec![b'o', b'k']));
    assert_eq!(r, InboundOutcome::Keepalive);
    assert_eq!(io.i.len(), 0);
}

#[test]
fn malformed_messages_are_discarded_not_defaulted() {
    let mut io = IO::new();
    let r = inbound_event(&mut io, NetEvent::Message(vec![b'o', b'k', b'!']));
    assert_eq!(r, InboundOutcome::Malformed);
    assert_eq!(io.i.len(), 0);
}

#[test]
fn notifications_and_errors_change_no_state() {
    let mut io = IO::new();
    let mut driver = ClientSystem::new();
    driver.outbound_tick(&mut io, true, "alice");
    assert!(driver.status.connected);
    let cases = vec![
        (NetEvent::Connect(String::from("10.0.0.1:7777")), InboundOutcome::PeerConnected),
        (NetEvent::Disconnect(String::from("10.0.0.1:7777")), InboundOutcome::PeerDisconnected),
        (NetEvent::RecvError(String::from("socket closed")), InboundOutcome::ReceiveError),
    ];
    for (event, outcome) in cases {
        assert_eq!(inbound_event(&mut io, event), outcome);
        assert_eq!(io.i.len(), 0);
        assert_eq!(io.o.len(), 0);
    }
    // A disconnect never resets the one-shot connection status.
    assert!(driver.status.connected);
}
