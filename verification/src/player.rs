//! The movement synchronizer: consumes inbound `InsertPlayer` commands into
//! player spawns, coalesces local axis input into validated position
//! updates, and emits the accepted moves to the outbound queue.
//!
//! One tick is: `drain_inbound` (spawn announced players, leaving every
//! other command queued for its own consumer); then, from the requested
//! orientation and the local position, the caller asks the map's collision
//! surface whether the step is permitted and hands the answer to
//! `movement_tick`. The map query and the entity store are external
//! collaborators; the clock reaches this core as milliseconds.
//!
//! Movement is client-side prediction with server notification: the server
//! is told of each accepted move and never vetoes it here (a known
//! consistency gap of the protocol).

use vstd::prelude::*;

use crate::io::IO;
use crate::proto::{Action, Cmd, CmdV, Orientation, Pack, PackV, PlayerInfo, PlayerInfoV};

verus! {

/// The minimum interval between two accepted movement attempts.
pub const MOVEMENT_DELAY_MS: u64 = 250;

/// One player on the tile grid: where it stands and where it faces.
#[derive(Clone, Debug, PartialEq, Eq)]
pub struct PlayerComponent {
    pub name: String,
    pub x: i32,
    pub y: i32,
    pub orientation: Orientation,
}

impl View for PlayerComponent {
    type V = PlayerInfoV;

    open spec fn view(&self) -> PlayerInfoV {
        PlayerInfoV {
            name: self.name@,
            x: self.x as int,
            y: self.y as int,
            orientation: self.orientation,
        }
    }
}

/// The one-tile displacement of a facing.
pub open spec fn step(o: Orientation) -> (int, int) {
    match o {
        Orientation::North => (0, 1),
        Orientation::South => (0, -1),
        Orientation::East => (1, 0),
        Orientation::West => (-1, 0),
    }
}

/// A player advanced one tile in its facing.
pub open spec fn walked(p: PlayerInfoV) -> PlayerInfoV {
    PlayerInfoV { x: p.x + step(p.orientation).0, y: p.y + step(p.orientation).1, ..p }
}

impl PlayerComponent {
    /// Spawn a player as announced.
    pub fn new(info: PlayerInfo) -> (r: Self)
        ensures
            r@ == info@,
    {
        PlayerComponent { name: info.name, x: info.x, y: info.y, orientation: info.orientation }
    }

    /// Advance one tile in the current facing.
    pub fn walk(&mut self)
        requires
            i32::MIN < old(self).x < i32::MAX,
            i32::MIN < old(self).y < i32::MAX,
        ensures
            final(self)@ == walked(old(self)@),
    {
        match self.orientation {
            Orientation::North => {
                self.y = self.y + 1;
            },
            Orientation::South => {
                self.y = self.y - 1;
            },
            Orientation::East => {
                self.x = self.x + 1;
            },
            Orientation::West => {
                self.x = self.x - 1;
            },
        }
    }
}

/// The orientation asked for by the axis signs; vertical input wins when
/// both axes are pushed, and dead input asks for nothing.
pub open spec fn axis_orientation(h: int, v: int) -> Option<Orientation> {
    if v > 0 {
        Option::Some(Orientation::North)
    } else if v < 0 {
        Option::Some(Orientation::South)
    } else if h > 0 {
        Option::Some(Orientation::East)
    } else if h < 0 {
        Option::Some(Orientation::West)
    } else {
        Option::None
    }
}

/// The requested orientation for this tick's axis input, if any. The caller
/// uses it, with the local position, to query the map's collision surface.
pub fn requested_orientation(h: i32, v: i32) -> (r: Option<Orientation>)
    ensures
        r == axis_orientation(h as int, v as int),
{
    if v > 0 {
        Some(Orientation::North)
    } else if v < 0 {
        Some(Orientation::South)
    } else if h > 0 {
        Some(Orientation::East)
    } else if h < 0 {
        Some(Orientation::West)
    } else {
        None
    }
}

/// Spec-level image of the synchronizer's state.
pub struct PlayerSystemV {
    pub p1: Option<PlayerInfoV>,
    pub timer: Option<u64>,
    pub p1_name: Seq<char>,
}

/// The movement synchronizer. `p1` is the locally controlled player, known
/// once an `InsertPlayer` bearing the configured name arrives; `timer` is
/// the clock reading of the last movement attempt that passed the rate
/// limit.
pub struct PlayerSystem {
    pub p1: Option<PlayerComponent>,
    pub timer: Option<u64>,
    pub p1_name: String,
}

impl View for PlayerSystem {
    type V = PlayerSystemV;

    open spec fn view(&self) -> PlayerSystemV {
        PlayerSystemV {
            p1: match self.p1 {
                Option::Some(c) => Option::Some(c@),
                Option::None => Option::None,
            },
            timer: self.timer,
            p1_name: self.p1_name@,
        }
    }
}

/// The infos announced by the `InsertPlayer` packs of a queue, in order.
pub open spec fn inserts_of(s: Seq<PackV>) -> Seq<PlayerInfoV>
    decreases s.len(),
{
    if s.len() == 0 {
        Seq::<PlayerInfoV>::empty()
    } else {
        let rest = inserts_of(s.drop_last());
        match s.last().cmd {
            CmdV::InsertPlayer(i) => rest.push(i),
            _ => rest,
        }
    }
}

/// The packs of a queue that are not `InsertPlayer`, in order.
pub open spec fn others_of(s: Seq<PackV>) -> Seq<PackV>
    decreases s.len(),
{
    if s.len() == 0 {
        Seq::<PackV>::empty()
    } else {
        let rest = others_of(s.drop_last());
        match s.last().cmd {
            CmdV::InsertPlayer(_) => rest,
            _ => rest.push(s.last()),
        }
    }
}

/// The last announced info bearing the given name, if any.
pub open spec fn last_named(infos: Seq<PlayerInfoV>, name: Seq<char>) -> Option<PlayerInfoV>
    decreases infos.len(),
{
    if infos.len() == 0 {
        Option::None
    } else if infos.last().name == name {
        Option::Some(infos.last())
    } else {
        last_named(infos.drop_last(), name)
    }
}

impl PlayerSystem {
    /// A synchronizer configured with the local player's name, before any
    /// player is known.
    pub fn new(p1_name: String) -> (r: Self)
        ensures
            r@.p1 is None,
            r@.timer is None,
            r@.p1_name == p1_name@,
    {
        PlayerSystem { p1: None, timer: None, p1_name }
    }

    /// The local player's tile position, once known.
    pub fn local_position(&self) -> (r: Option<(i32, i32)>)
        ensures
            (match self@.p1 {
                Option::Some(p) => r matches Option::Some(pos) && pos.0 == p.x && pos.1 == p.y,
                Option::None => r is None,
            }),
    {
        match &self.p1 {
            Some(c) => Some((c.x, c.y)),
            None => None,
        }
    }

    /// Drain the inbound queue. Every `InsertPlayer` is consumed and its
    /// info returned, in arrival order, for the caller to spawn; the one
    /// bearing the configured name (the last, if several) becomes the local
    /// player and starts the movement cooldown. Every other command is put
    /// back unchanged, in its original order, for its own consumer.
    pub fn drain_inbound(&mut self, io: &mut IO, now_ms: u64) -> (r: Vec<PlayerInfo>)
        ensures
            final(io).i@ == others_of(old(io).i@),
            final(io).o@ == old(io).o@,
            r@.map_values(|i: PlayerInfo| i@) == inserts_of(old(io).i@),
            final(self).p1_name == old(self).p1_name,
            (match last_named(inserts_of(old(io).i@), old(self).p1_name@) {
                Option::Some(inf) => final(self)@.p1 == Option::Some(inf) && final(self)@.timer
                    == Option::Some(now_ms),
                Option::None => final(self)@.p1 == old(self)@.p1 && final(self)@.timer == old(
                    self,
                )@.timer,
            }),
    {
        let ghost orig = old(io).i@;
        let mut queued = io.i.pop();
        let mut spawned: Vec<PlayerInfo> = Vec::new();
        let ghost mut done = Seq::<PackV>::empty();
        proof {
            assert(inserts_of(done) =~= Seq::<PlayerInfoV>::empty());
            assert(spawned@.map_values(|i: PlayerInfo| i@) =~= Seq::<PlayerInfoV>::empty());
            assert(done + queued@.map_values(|p: Pack| p@) =~= orig);
        }
        #[verifier::loop_isolation(false)]
        loop
            invariant
                done + queued@.map_values(|p: Pack| p@) == orig,
                io.i@ == others_of(done),
                io.o@ == old(io).o@,
                spawned@.map_values(|i: PlayerInfo| i@) == inserts_of(done),
                self.p1_name == old(self).p1_name,
                (match last_named(inserts_of(done), old(self).p1_name@) {
                    Option::Some(inf) => self@.p1 == Option::Some(inf) && self@.timer
                        == Option::Some(now_ms),
                    Option::None => self@.p1 == old(self)@.p1 && self@.timer == old(self)@.timer,
                }),
            decreases queued.len(),
        {
            if queued.len() == 0 {
                proof {
                    assert(queued@.map_values(|p: Pack| p@) =~= Seq::<PackV>::empty());
                    assert(done =~= orig);
                    assert(io.i@ == others_of(orig));
                    assert(spawned@.map_values(|i: PlayerInfo| i@) == inserts_of(orig));
                }
                return spawned;
            }
            let ghost q_before = queued@.map_values(|p: Pack| p@);
            let element = queued.remove(0);
            let ghost ev = element@;
            let ghost done_next = done.push(ev);
            proof {
                assert(done_next.drop_last() =~= done);
                assert(done_next.last() == ev);
                assert(q_before =~= seq![ev] + queued@.map_values(|p: Pack| p@));
                assert(done_next + queued@.map_values(|p: Pack| p@) =~= done + q_before);
            }
            match element.cmd {
                Cmd::InsertPlayer(play) => {
                    proof {
                        assert(ev.cmd == CmdV::InsertPlayer(play@));
                        assert(inserts_of(done_next) =~= inserts_of(done).push(play@));
                        assert(others_of(done_next) =~= others_of(done));
                        assert(inserts_of(done_next).last() == play@);
                        assert(inserts_of(done_next).drop_last() =~= inserts_of(done));
                    }
                    let is_local = play.name == self.p1_name;
                    if is_local {
                        let player = PlayerComponent {
                            name: play.name.clone(),
                            x: play.x,
                            y: play.y,
                            orientation: play.orientation,
                        };
                        self.p1 = Some(player);
                        self.timer = Some(now_ms);
                    }
                    spawned.push(play);
                    proof {
                        assert(spawned@.map_values(|i: PlayerInfo| i@) =~= inserts_of(done_next));
                    }
                },
                other => {
                    proof {
                        assert(!(ev.cmd is InsertPlayer));
                        assert(inserts_of(done_next) =~= inserts_of(done));
                        assert(others_of(done_next) =~= others_of(done).push(ev));
                    }
                    let back = Pack { cmd: other, id: element.id, dest: element.dest };
                    proof {
                        assert(back@ == ev);
                    }
                    io.i.push(back);
                },
            }
            proof {
                done = done_next;
            }
        }
    }
}

/// A movement attempt passes every gate: a local player exists, its cooldown
/// has started, the axes ask for a direction, and the rate limit has
/// elapsed.
pub open spec fn attempt_fires(s: PlayerSystemV, h: int, v: int, now: u64) -> bool {
    &&& s.p1 is Some
    &&& axis_orientation(h, v) is Some
    &&& (s.timer matches Option::Some(t) && now >= t + MOVEMENT_DELAY_MS)
}

/// The outbound notification of one accepted move.
pub open spec fn move_pack(o: Orientation) -> PackV {
    PackV { cmd: CmdV::Action(Action::Move(o)), id: 0, dest: Option::None }
}

/// The synchronizer's state after one movement tick. When the attempt
/// fires, the player turns to the requested orientation (kept even for a
/// rejected move, as visible feedback); the position advances and the
/// cooldown restarts only when the map permitted the step, so the rate
/// limit measures the time since the last accepted move.
pub open spec fn tick_state(s: PlayerSystemV, h: int, v: int, now: u64, allowed: bool) -> PlayerSystemV {
    if attempt_fires(s, h, v, now) {
        match (s.p1, axis_orientation(h, v)) {
            (Option::Some(p), Option::Some(o)) => {
                let faced = PlayerInfoV { orientation: o, ..p };
                PlayerSystemV {
                    p1: Option::Some(if allowed { walked(faced) } else { faced }),
                    timer: if allowed { Option::Some(now) } else { s.timer },
                    p1_name: s.p1_name,
                }
            },
            _ => s,
        }
    } else {
        s
    }
}

/// What one movement tick appends to the outbound queue: exactly one move
/// notification for an accepted move, nothing otherwise.
pub open spec fn tick_sent(s: PlayerSystemV, h: int, v: int, now: u64, allowed: bool) -> Seq<
    PackV,
> {
    if attempt_fires(s, h, v, now) && allowed {
        match axis_orientation(h, v) {
            Option::Some(o) => seq![move_pack(o)],
            Option::None => Seq::<PackV>::empty(),
        }
    } else {
        Seq::<PackV>::empty()
    }
}

impl PlayerSystem {
    /// One movement tick. The caller read the axis input, computed the
    /// requested orientation and asked the map whether a step from the local
    /// position in that orientation is permitted; `allowed` is the map's
    /// answer. Dead input, a missing local player or a running cooldown do
    /// nothing. Otherwise the facing turns either way; when permitted, the
    /// position advances one tile, the cooldown restarts, and exactly one
    /// `Action(Move(..))` pack joins the outbound queue. A rejected move
    /// leaves the cooldown running: it measures the time since the last
    /// accepted move.
    pub fn movement_tick(&mut self, io: &mut IO, h: i32, v: i32, now_ms: u64, allowed: bool) -> (moved:
        bool)
        requires
            attempt_fires(old(self)@, h as int, v as int, now_ms) && allowed ==> (old(
                self,
            )@.p1 matches Option::Some(p) && i32::MIN < p.x < i32::MAX && i32::MIN < p.y
                < i32::MAX),
        ensures
            final(self)@ == tick_state(old(self)@, h as int, v as int, now_ms, allowed),
            final(io).i@ == old(io).i@,
            final(io).o@ == old(io).o@ + tick_sent(
                old(self)@,
                h as int,
                v as int,
                now_ms,
                allowed,
            ),
            moved == (attempt_fires(old(self)@, h as int, v as int, now_ms) && allowed),
    {
        let ghost sv = old(self)@;
        let ghost hi = h as int;
        let ghost vi = v as int;
        let o = match requested_orientation(h, v) {
            Some(o) => o,
            None => {
                proof {
                    assert(!attempt_fires(sv, hi, vi, now_ms));
                    assert(old(io).o@ + tick_sent(sv, hi, vi, now_ms, allowed) =~= old(io).o@);
                }
                return false;
            },
        };
        let t = match self.timer {
            Some(t) => t,
            None => {
                proof {
                    assert(!attempt_fires(sv, hi, vi, now_ms));
                    assert(old(io).o@ + tick_sent(sv, hi, vi, now_ms, allowed) =~= old(io).o@);
                }
                return false;
            },
        };
        let (nm, px, py) = match &self.p1 {
            Some(c) => (c.name.clone(), c.x, c.y),
            None => {
                proof {
                    assert(!attempt_fires(sv, hi, vi, now_ms));
                    assert(old(io).o@ + tick_sent(sv, hi, vi, now_ms, allowed) =~= old(io).o@);
                }
                return false;
            },
        };
        if now_ms < t || now_ms - t < MOVEMENT_DELAY_MS {
            proof {
                assert(!attempt_fires(sv, hi, vi, now_ms));
                assert(old(io).o@ + tick_sent(sv, hi, vi, now_ms, allowed) =~= old(io).o@);
            }
            return false;
        }
        proof {
            assert(attempt_fires(sv, hi, vi, now_ms));
        }
        let mut player = PlayerComponent { name: nm, x: px, y: py, orientation: o };
        if allowed {
            player.walk();
            self.p1 = Some(player);
            self.timer = Some(now_ms);
            io.o.push(Pack::new(Cmd::Action(Action::Move(o)), 0, None));
            proof {
                assert(old(io).o@ + tick_sent(sv, hi, vi, now_ms, allowed) =~= old(io).o@.push(
                    move_pack(o),
                ));
                assert(self@ == tick_state(sv, hi, vi, now_ms, allowed));
            }
            true
        } else {
            self.p1 = Some(player);
            proof {
                assert(old(io).o@ + tick_sent(sv, hi, vi, now_ms, allowed) =~= old(io).o@);
                assert(self@ == tick_state(sv, hi, vi, now_ms, allowed));
            }
            false
        }
    }
}

/// Rate-limit idempotence: once a move is accepted at one instant, a second
/// attempt within the cooldown window — whatever its input and whatever the
/// map would answer — leaves the synchronizer unchanged and sends nothing:
/// at most one move is accepted per window.
pub proof fn lemma_rate_limit(
    s: PlayerSystemV,
    h1: int,
    v1: int,
    t1: u64,
    h2: int,
    v2: int,
    t2: u64,
    a2: bool,
)
    requires
        attempt_fires(s, h1, v1, t1),
        t2 < t1 + MOVEMENT_DELAY_MS,
    ensures
        tick_state(tick_state(s, h1, v1, t1, true), h2, v2, t2, a2) == tick_state(
            s,
            h1,
            v1,
            t1,
            true,
        ),
        tick_sent(tick_state(s, h1, v1, t1, true), h2, v2, t2, a2) == Seq::<PackV>::empty(),
{
    let s1 = tick_state(s, h1, v1, t1, true);
    assert(s1.timer == Option::Some(t1));
    assert(!attempt_fires(s1, h2, v2, t2));
}

} // verus!
