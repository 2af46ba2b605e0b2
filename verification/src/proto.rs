//! Protocol vocabulary: the closed set of commands exchanged between client
//! and server, the `Pack` envelope that frames exactly one command on the
//! wire, and the spec-level views the contracts of this crate are stated
//! over.

use vstd::prelude::*;

verus! {

/// One of the four discrete facings a player can have on the tile grid.
#[derive(Clone, Copy, Debug, PartialEq, Eq, Structural)]
pub enum Orientation {
    North,
    South,
    East,
    West,
}

/// A player action carried by `Cmd::Action`; today only movement.
#[derive(Clone, Copy, Debug, PartialEq, Eq, Structural)]
pub enum Action {
    Move(Orientation),
}

/// Identity and spawn state of one player, as the server announces it.
#[derive(Clone, Debug, PartialEq, Eq)]
pub struct PlayerInfo {
    /// Unique display name within a session.
    pub name: String,
    /// Tile column of the spawn position.
    pub x: i32,
    /// Tile row of the spawn position.
    pub y: i32,
    /// Initial facing.
    pub orientation: Orientation,
}

/// Spec-level image of a `PlayerInfo`.
pub struct PlayerInfoV {
    pub name: Seq<char>,
    pub x: int,
    pub y: int,
    pub orientation: Orientation,
}

impl View for PlayerInfo {
    type V = PlayerInfoV;

    open spec fn view(&self) -> PlayerInfoV {
        PlayerInfoV {
            name: self.name@,
            x: self.x as int,
            y: self.y as int,
            orientation: self.orientation,
        }
    }
}

/// The closed command vocabulary. Every message on the wire is exactly one
/// of these; decoding anything else is a hard failure, never a default.
#[derive(Clone, Debug, PartialEq, Eq)]
pub enum Cmd {
    /// No-op / keepalive placeholder.
    Nothing,
    /// Client to server: handshake request carrying an opaque credential.
    Connect(String),
    /// Server to client: the map resource path and its full textual payload.
    TransferMap(String, String),
    /// Client to server: the map was applied.
    ReceivedMap,
    /// Server to client: seeds the initial player roster (may be empty).
    CreatePlayer(Vec<PlayerInfo>),
    /// Server to client: one additional player joins.
    InsertPlayer(PlayerInfo),
    /// Either direction: a player action.
    Action(Action),
}

/// Spec-level image of a `Cmd`.
pub enum CmdV {
    Nothing,
    Connect(Seq<char>),
    TransferMap(Seq<char>, Seq<char>),
    ReceivedMap,
    CreatePlayer(Seq<PlayerInfoV>),
    InsertPlayer(PlayerInfoV),
    Action(Action),
}

impl View for Cmd {
    type V = CmdV;

    open spec fn view(&self) -> CmdV {
        match self {
            Cmd::Nothing => CmdV::Nothing,
            Cmd::Connect(s) => CmdV::Connect(s@),
            Cmd::TransferMap(p, m) => CmdV::TransferMap(p@, m@),
            Cmd::ReceivedMap => CmdV::ReceivedMap,
            Cmd::CreatePlayer(r) => CmdV::CreatePlayer(r@.map_values(|i: PlayerInfo| i@)),
            Cmd::InsertPlayer(i) => CmdV::InsertPlayer(i@),
            Cmd::Action(a) => CmdV::Action(*a),
        }
    }
}

/// The envelope framed on the wire: exactly one command, an integer
/// correlation tag, and an optional routing address used client-side when
/// framing for send.
#[derive(Clone, Debug, PartialEq, Eq)]
pub struct Pack {
    pub cmd: Cmd,
    pub id: u64,
    pub dest: Option<String>,
}

/// Spec-level image of a `Pack`.
pub struct PackV {
    pub cmd: CmdV,
    pub id: u64,
    pub dest: Option<Seq<char>>,
}

impl View for Pack {
    type V = PackV;

    open spec fn view(&self) -> PackV {
        PackV {
            cmd: self.cmd@,
            id: self.id,
            dest: match self.dest {
                Option::None => Option::None,
                Option::Some(s) => Option::Some(s@),
            },
        }
    }
}

impl Pack {
    /// Wrap one command into an envelope.
    pub fn new(cmd: Cmd, id: u64, dest: Option<String>) -> (r: Pack)
        ensures
            r@.cmd == cmd@,
            r@.id == id,
            r@ == (PackV { cmd: cmd@, id, dest: match dest { Option::None => Option::None::<Seq<char>>, Option::Some(s) => Option::Some(s@) } }),
    {
        Pack { cmd, id, dest }
    }
}

/// The view of a sequence of packs, element by element.
pub open spec fn packs_view(s: Seq<Pack>) -> Seq<PackV> {
    s.map_values(|p: Pack| p@)
}

} // verus!
