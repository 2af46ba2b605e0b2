//! The client network driver's per-tick decisions. The transport itself is
//! an external collaborator: the caller tells the driver whether the send
//! cadence allows writing this tick, performs the sends the driver hands
//! back (each reliable and order-preserving), and feeds every transport
//! event into `inbound_event`.
//!
//! One tick runs the outbound phase first, then the inbound phase, so a pack
//! sent in a tick is never also read back within that same tick.

use vstd::prelude::*;

use vstd::string::StringExecFns;

use crate::io::IO;
use crate::proto::{Cmd, CmdV, Pack, PackV, packs_view};
use crate::wire::spec_decode;

verus! {

/// Whether this client has sent its handshake yet. Owned and mutated by the
/// client network driver alone; a lost connection never resets it (known
/// gap: there is no retry).
pub struct ClientStatus {
    pub connected: bool,
}

impl Default for ClientStatus {
    /// A fresh status: not yet connected.
    fn default() -> (r: Self)
        ensures
            !r.connected,
    {
        ClientStatus { connected: false }
    }
}

/// One transport event, as the driver models it: a data message, a peer
/// connecting or disconnecting (observability only), or a receive error
/// (tolerated, never fatal).
pub enum NetEvent {
    Message(Vec<u8>),
    Connect(String),
    Disconnect(String),
    RecvError(String),
}

/// What the driver did with one transport event; the caller may log it.
#[derive(Clone, Copy, Debug, PartialEq, Eq, Structural)]
pub enum InboundOutcome {
    /// A data message decoded into a pack and appended to the inbound queue.
    Queued,
    /// The bare acknowledgment token; discarded, it is not a protocol message.
    Keepalive,
    /// A data message that decodes to no pack; discarded.
    Malformed,
    /// A peer connected; recorded only.
    PeerConnected,
    /// A peer disconnected; recorded only, the status is not reset.
    PeerDisconnected,
    /// The transport reported a receive error; the driver carries on.
    ReceiveError,
}

/// The two-byte acknowledgment token, "ok" in ASCII.
pub open spec fn ack_token() -> Seq<u8> {
    seq![111u8, 107u8]
}

/// The opaque handshake credential sent for a player: the name followed by a
/// fixed placeholder stamp and signature. Never validated by this core.
pub open spec fn connect_proof(name: Seq<char>) -> Seq<char> {
    name + " 1580235330 SignatureHere"@
}

/// The handshake pack sent once per session.
pub open spec fn connect_pack(name: Seq<char>) -> PackV {
    PackV { cmd: CmdV::Connect(connect_proof(name)), id: 0, dest: Option::None }
}

/// The client network driver. It owns the connection status; nothing else in
/// this core reads or writes it.
pub struct ClientSystem {
    pub status: ClientStatus,
}

/// Builds a fresh client network driver.
#[derive(Default, Debug)]
pub struct ClientSystemDesc;

impl ClientSystemDesc {
    /// A driver that has not yet sent its handshake.
    pub fn build(self) -> (r: ClientSystem)
        ensures
            !r.status.connected,
    {
        ClientSystem::new()
    }
}

impl ClientSystem {
    /// A driver that has not yet sent its handshake.
    pub fn new() -> (r: ClientSystem)
        ensures
            !r.status.connected,
    {
        ClientSystem { status: ClientStatus { connected: false } }
    }

    /// The outbound phase of one tick. When the send cadence allows writing
    /// and the handshake was not yet sent, the result is exactly one
    /// `Connect` pack and the status flips to connected — a one-shot
    /// transition, never reversed here. When already connected, the result
    /// is the whole outbound queue in arrival order, each pack exactly once,
    /// and the queue is left empty. The caller sends each returned pack, in
    /// order, with reliable order-preserving delivery.
    pub fn outbound_tick(&mut self, io: &mut IO, should_send: bool, player_name: &str) -> (r: Vec<
        Pack,
    >)
        ensures
            final(io).i@ == old(io).i@,
            !should_send ==> {
                &&& final(self).status.connected == old(self).status.connected
                &&& final(io).o@ == old(io).o@
                &&& packs_view(r@) == Seq::<PackV>::empty()
            },
            should_send && !old(self).status.connected ==> {
                &&& final(self).status.connected
                &&& final(io).o@ == old(io).o@
                &&& packs_view(r@) == seq![connect_pack(player_name@)]
            },
            should_send && old(self).status.connected ==> {
                &&& final(self).status.connected
                &&& final(io).o@ == Seq::<PackV>::empty()
                &&& packs_view(r@) == old(io).o@
            },
    {
        if should_send {
            if !self.status.connected {
                let mut credential = String::from_str(player_name);
                credential.append(" 1580235330 SignatureHere");
                let p = Pack::new(Cmd::Connect(credential), 0, None);
                let mut out: Vec<Pack> = Vec::new();
                out.push(p);
                self.status.connected = true;
                assert(packs_view(out@) =~= seq![connect_pack(player_name@)]);
                out
            } else {
                io.o.pop()
            }
        } else {
            let out: Vec<Pack> = Vec::new();
            assert(packs_view(out@) =~= Seq::<PackV>::empty());
            out
        }
    }
}

/// The inbound phase, one transport event at a time. A data message that is
/// not the bare acknowledgment token is decoded and appended to the inbound
/// queue in arrival order; a malformed one is discarded without touching the
/// queue; connection notices and receive errors change nothing here.
pub fn inbound_event(io: &mut IO, event: NetEvent) -> (r: InboundOutcome)
    ensures
        final(io).o@ == old(io).o@,
        (match event {
            NetEvent::Message(payload) => {
                if payload@ == ack_token() {
                    r == InboundOutcome::Keepalive && final(io).i@ == old(io).i@
                } else {
                    match spec_decode(payload@) {
                        Option::Some(pv) => r == InboundOutcome::Queued && final(io).i@ == old(
                            io,
                        ).i@.push(pv),
                        Option::None => r == InboundOutcome::Malformed && final(io).i@ == old(
                            io,
                        ).i@,
                    }
                }
            },
            NetEvent::Connect(_) => r == InboundOutcome::PeerConnected && final(io).i@ == old(
                io,
            ).i@,
            NetEvent::Disconnect(_) => r == InboundOutcome::PeerDisconnected && final(io).i@ == old(
                io,
            ).i@,
            NetEvent::RecvError(_) => r == InboundOutcome::ReceiveError && final(io).i@ == old(
                io,
            ).i@,
        }),
{
    match event {
        NetEvent::Message(payload) => {
            let is_ack = payload.len() == 2 && payload[0] == 111u8 && payload[1] == 107u8;
            if is_ack {
                proof {
                    assert(payload@ =~= ack_token());
                }
                InboundOutcome::Keepalive
            } else {
                proof {
                    assert(payload@ != ack_token());
                }
                match Pack::from_bin(payload) {
                    Ok(pk) => {
                        io.i.push(pk);
                        InboundOutcome::Queued
                    },
                    Err(_) => InboundOutcome::Malformed,
                }
            }
        },
        NetEvent::Connect(_) => InboundOutcome::PeerConnected,
        NetEvent::Disconnect(_) => InboundOutcome::PeerDisconnected,
        NetEvent::RecvError(_) => InboundOutcome::ReceiveError,
    }
}

} // verus!
