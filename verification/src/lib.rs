//! Networked-multiplayer core of a tile-based 2D game: the binary command
//! protocol spoken between one authoritative server and its clients, the
//! inbound/outbound queue pair that bridges the network transport and the
//! per-tick game logic, the server-side handshake dispatcher, the client
//! network driver, and the movement synchronizer that turns axis input into
//! validated position updates.
//!
//! The engine runtime (rendering, entity storage, input mapping, the
//! transport itself and the wall clock) is an external collaborator: it is
//! reached only through plain values handed into and out of the functions
//! here, so everything in this crate is verified.

pub mod proto;
pub mod io;
pub mod wire;
pub mod server;
pub mod client;
pub mod player;
