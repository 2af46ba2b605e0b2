//! The server dispatcher: a pure mapping from one received command to at
//! most one reply, carrying the handshake (`Connect` answered with the map,
//! `ReceivedMap` answered with the current roster). It holds no state of its
//! own: the map resource and the roster are passed in by the caller, which
//! reads them at startup — a map that cannot be read is a startup failure
//! outside this core, not a per-client error.
//!
//! Movement stays client-authoritative by design: a received `Action` is
//! deliberately answered with nothing rather than re-validated or broadcast
//! here. Broadcasting one client's action to the others is an extension
//! point of the protocol, not part of this dispatcher.

use vstd::prelude::*;

use vstd::string::StringExecFns;

use crate::proto::{Cmd, CmdV, Pack, PackV, PlayerInfo, PlayerInfoV};
use crate::wire::spec_decode;

verus! {

/// The view of an optional pack.
pub open spec fn opt_pack_view(r: Option<Pack>) -> Option<PackV> {
    match r {
        Option::Some(p) => Option::Some(p@),
        Option::None => Option::None,
    }
}

/// What the dispatcher answers to each command — total over the whole
/// vocabulary: a handshake request gets the map, a map acknowledgment gets
/// the roster, and every other variant (including echoed server-bound ones)
/// gets no reply.
pub open spec fn dispatch_spec(
    c: CmdV,
    map_path: Seq<char>,
    map_content: Seq<char>,
    roster: Seq<PlayerInfoV>,
) -> Option<PackV> {
    match c {
        CmdV::Nothing => Option::None,
        CmdV::Connect(_) => Option::Some(
            PackV {
                cmd: CmdV::TransferMap(map_path, map_content),
                id: 0,
                dest: Option::None,
            },
        ),
        CmdV::TransferMap(_, _) => Option::None,
        CmdV::ReceivedMap => Option::Some(
            PackV { cmd: CmdV::CreatePlayer(roster), id: 0, dest: Option::None },
        ),
        CmdV::CreatePlayer(_) => Option::None,
        CmdV::InsertPlayer(_) => Option::None,
        CmdV::Action(_) => Option::None,
    }
}

/// Answer a handshake request with the map transfer. The credential in the
/// request is opaque to this core and is not validated here.
fn welcome(map_path: &str, map_content: &str) -> (r: Option<Pack>)
    ensures
        opt_pack_view(r) == Option::Some(
            PackV {
                cmd: CmdV::TransferMap(map_path@, map_content@),
                id: 0,
                dest: Option::None::<Seq<char>>,
            },
        ),
{
    Some(
        Pack::new(
            Cmd::TransferMap(String::from_str(map_path), String::from_str(map_content)),
            0,
            None,
        ),
    )
}

/// Answer a map acknowledgment with the current roster; emitting this reply
/// is the point at which the new client counts as active.
pub fn send_player(roster: Vec<PlayerInfo>) -> (r: Option<Pack>)
    ensures
        opt_pack_view(r) == Option::Some(
            PackV {
                cmd: CmdV::CreatePlayer(roster@.map_values(|i: PlayerInfo| i@)),
                id: 0,
                dest: Option::None::<Seq<char>>,
            },
        ),
{
    Some(Pack::new(Cmd::CreatePlayer(roster), 0, None))
}

/// Dispatch one received command. Total: every variant is handled, with a
/// reply or deliberately without one.
pub fn dispatch(cmd: Cmd, map_path: &str, map_content: &str, roster: Vec<PlayerInfo>) -> (r:
    Option<Pack>)
    ensures
        opt_pack_view(r) == dispatch_spec(
            cmd@,
            map_path@,
            map_content@,
            roster@.map_values(|i: PlayerInfo| i@),
        ),
{
    match cmd {
        Cmd::Nothing => None,
        Cmd::Connect(_credential) => welcome(map_path, map_content),
        Cmd::TransferMap(_, _) => None,
        Cmd::ReceivedMap => send_player(roster),
        Cmd::CreatePlayer(_) => None,
        Cmd::InsertPlayer(_) => None,
        Cmd::Action(_) => None,
    }
}

/// Handle one framed message received from a client: decode it and dispatch
/// its command. A malformed frame is discarded — it never corrupts state and
/// never becomes a defaulted command.
pub fn handle(bin: Vec<u8>, map_path: &str, map_content: &str, roster: Vec<PlayerInfo>) -> (r:
    Option<Pack>)
    ensures
        opt_pack_view(r) == (match spec_decode(bin@) {
            Option::Some(pv) => dispatch_spec(
                pv.cmd,
                map_path@,
                map_content@,
                roster@.map_values(|i: PlayerInfo| i@),
            ),
            Option::None => Option::None::<PackV>,
        }),
{
    match Pack::from_bin(bin) {
        Ok(pk) => dispatch(pk.cmd, map_path, map_content, roster),
        Err(_) => None,
    }
}

} // verus!
