//! The wire format owned by this core: a length-framed binary encoding of
//! `Pack`. Encoding and decoding are exact inverses for every representable
//! pack, and decoding is all-or-nothing: truncated input, an unknown tag, a
//! non-UTF-8 string field or trailing bytes are a hard decode failure, never
//! a silently-defaulted command.
//!
//! Layout of one pack, left to right:
//! - correlation id, 8 bytes little-endian;
//! - routing field: one presence byte (0 absent, 1 present), then a string;
//! - command tag, one byte, then the variant's payload.
//!
//! A string is its UTF-8 byte length as 8 bytes little-endian, then its
//! UTF-8 bytes. A position coordinate is the signed tile index shifted by
//! 2^31, as 4 bytes little-endian. A roster is its length as 8 bytes
//! little-endian, then each entry in order.

use vstd::prelude::*;

use vstd::bytes::{
    spec_u32_from_le_bytes, spec_u32_to_le_bytes, spec_u64_from_le_bytes, spec_u64_to_le_bytes,
    u32_from_le_bytes, u32_to_le_bytes, u64_from_le_bytes, u64_to_le_bytes,
    lemma_auto_spec_u32_to_from_le_bytes, lemma_auto_spec_u64_to_from_le_bytes,
};
use vstd::slice::slice_subrange;
use vstd::string::StrSliceExecFns;
use vstd::utf8::{
    decode_utf8, decode_utf8_encode_utf8, encode_utf8, encode_utf8_decode_utf8,
    encode_utf8_valid_utf8, valid_utf8,
};

use crate::proto::{Action, Cmd, CmdV, Orientation, Pack, PackV, PlayerInfo, PlayerInfoV};

verus! {

/// Decode failure: the bytes do not spell any pack of the protocol.
#[derive(Clone, Copy, Debug, PartialEq, Eq, Structural)]
pub struct MalformedPacket;

// ---------------------------------------------------------------------------
// Spec-level encoding
// ---------------------------------------------------------------------------

/// The wire byte of a facing.
pub open spec fn orient_byte(o: Orientation) -> u8 {
    match o {
        Orientation::North => 0u8,
        Orientation::South => 1u8,
        Orientation::East => 2u8,
        Orientation::West => 3u8,
    }
}

/// A signed tile coordinate shifted into an unsigned word.
pub open spec fn pos_word(x: int) -> u32
    recommends
        pos_ok(x),
{
    (x + 0x8000_0000) as u32
}

/// The coordinate fits the 4-byte wire word.
pub open spec fn pos_ok(x: int) -> bool {
    -0x8000_0000 <= x < 0x8000_0000
}

/// Length-framed UTF-8 bytes of one string field.
pub open spec fn str_bytes(s: Seq<char>) -> Seq<u8> {
    spec_u64_to_le_bytes(encode_utf8(s).len() as u64) + encode_utf8(s)
}

/// The string's byte length fits the 8-byte length frame.
pub open spec fn str_ok(s: Seq<char>) -> bool {
    encode_utf8(s).len() <= u64::MAX
}

/// Wire bytes of one roster entry.
pub open spec fn info_bytes(i: PlayerInfoV) -> Seq<u8> {
    str_bytes(i.name) + spec_u32_to_le_bytes(pos_word(i.x)) + spec_u32_to_le_bytes(pos_word(i.y))
        + seq![orient_byte(i.orientation)]
}

/// The entry's fields fit their wire frames.
pub open spec fn info_ok(i: PlayerInfoV) -> bool {
    str_ok(i.name) && pos_ok(i.x) && pos_ok(i.y)
}

/// Wire bytes of a roster, entry by entry.
pub open spec fn roster_bytes(r: Seq<PlayerInfoV>) -> Seq<u8>
    decreases r.len(),
{
    if r.len() == 0 {
        Seq::<u8>::empty()
    } else {
        info_bytes(r[0]) + roster_bytes(r.drop_first())
    }
}

/// Wire bytes of a command: its tag byte, then its payload.
pub open spec fn cmd_bytes(c: CmdV) -> Seq<u8> {
    match c {
        CmdV::Nothing => seq![0u8],
        CmdV::Connect(s) => seq![1u8] + str_bytes(s),
        CmdV::TransferMap(p, m) => seq![2u8] + str_bytes(p) + str_bytes(m),
        CmdV::ReceivedMap => seq![3u8],
        CmdV::CreatePlayer(r) => seq![4u8] + spec_u64_to_le_bytes(r.len() as u64)
            + roster_bytes(r),
        CmdV::InsertPlayer(i) => seq![5u8] + info_bytes(i),
        CmdV::Action(Action::Move(o)) => seq![6u8] + seq![0u8] + seq![orient_byte(o)],
    }
}

/// Every field of the command fits its wire frame.
pub open spec fn cmd_ok(c: CmdV) -> bool {
    match c {
        CmdV::Nothing => true,
        CmdV::Connect(s) => str_ok(s),
        CmdV::TransferMap(p, m) => str_ok(p) && str_ok(m),
        CmdV::ReceivedMap => true,
        CmdV::CreatePlayer(r) => r.len() <= u64::MAX && (forall|k: int|
            0 <= k < r.len() ==> info_ok(#[trigger] r[k])),
        CmdV::InsertPlayer(i) => info_ok(i),
        CmdV::Action(a) => true,
    }
}

/// Wire bytes of the optional routing field.
pub open spec fn dest_bytes(d: Option<Seq<char>>) -> Seq<u8> {
    match d {
        Option::None => seq![0u8],
        Option::Some(s) => seq![1u8] + str_bytes(s),
    }
}

/// The routing field fits its wire frame.
pub open spec fn dest_ok(d: Option<Seq<char>>) -> bool {
    d matches Option::Some(s) ==> str_ok(s)
}

/// The whole pack is representable on the wire.
pub open spec fn pack_ok(p: PackV) -> bool {
    cmd_ok(p.cmd) && dest_ok(p.dest)
}

/// The full wire image of a pack.
pub open spec fn pack_bytes(p: PackV) -> Seq<u8> {
    spec_u64_to_le_bytes(p.id) + dest_bytes(p.dest) + cmd_bytes(p.cmd)
}

// ---------------------------------------------------------------------------
// Spec-level parsing: each parser yields the parsed value and the offset just
// past it, or nothing when the bytes do not fit the frame.
// ---------------------------------------------------------------------------

pub open spec fn parse_byte(b: Seq<u8>, i: int) -> Option<(u8, int)> {
    if 0 <= i && i + 1 <= b.len() {
        Option::Some((b[i], i + 1))
    } else {
        Option::None
    }
}

pub open spec fn parse_u32(b: Seq<u8>, i: int) -> Option<(u32, int)> {
    if 0 <= i && i + 4 <= b.len() {
        Option::Some((spec_u32_from_le_bytes(b.subrange(i, i + 4)), i + 4))
    } else {
        Option::None
    }
}

pub open spec fn parse_u64(b: Seq<u8>, i: int) -> Option<(u64, int)> {
    if 0 <= i && i + 8 <= b.len() {
        Option::Some((spec_u64_from_le_bytes(b.subrange(i, i + 8)), i + 8))
    } else {
        Option::None
    }
}

pub open spec fn parse_str(b: Seq<u8>, i: int) -> Option<(Seq<char>, int)> {
    match parse_u64(b, i) {
        Option::Some((n, j)) => {
            if j + n as int <= b.len() && valid_utf8(b.subrange(j, j + n as int)) {
                Option::Some((decode_utf8(b.subrange(j, j + n as int)), j + n as int))
            } else {
                Option::None
            }
        },
        Option::None => Option::None,
    }
}

pub open spec fn parse_orient(b: Seq<u8>, i: int) -> Option<(Orientation, int)> {
    match parse_byte(b, i) {
        Option::Some((t, j)) => {
            if t == 0 {
                Option::Some((Orientation::North, j))
            } else if t == 1 {
                Option::Some((Orientation::South, j))
            } else if t == 2 {
                Option::Some((Orientation::East, j))
            } else if t == 3 {
                Option::Some((Orientation::West, j))
            } else {
                Option::None
            }
        },
        Option::None => Option::None,
    }
}

pub open spec fn parse_info(b: Seq<u8>, i: int) -> Option<(PlayerInfoV, int)> {
    match parse_str(b, i) {
        Option::Some((name, j)) => match parse_u32(b, j) {
            Option::Some((xw, k)) => match parse_u32(b, k) {
                Option::Some((yw, l)) => match parse_orient(b, l) {
                    Option::Some((o, m)) => Option::Some(
                        (PlayerInfoV {
                            name,
                            x: xw as int - 0x8000_0000,
                            y: yw as int - 0x8000_0000,
                            orientation: o,
                        }, m),
                    ),
                    Option::None => Option::None,
                },
                Option::None => Option::None,
            },
            Option::None => Option::None,
        },
        Option::None => Option::None,
    }
}

pub open spec fn parse_roster(b: Seq<u8>, i: int, n: nat) -> Option<(Seq<PlayerInfoV>, int)>
    decreases n,
{
    if n == 0 {
        Option::Some((Seq::<PlayerInfoV>::empty(), i))
    } else {
        match parse_info(b, i) {
            Option::Some((inf, j)) => match parse_roster(b, j, (n - 1) as nat) {
                Option::Some((rest, k)) => Option::Some((seq![inf] + rest, k)),
                Option::None => Option::None,
            },
            Option::None => Option::None,
        }
    }
}

pub open spec fn parse_cmd(b: Seq<u8>, i: int) -> Option<(CmdV, int)> {
    match parse_byte(b, i) {
        Option::Some((t, j)) => {
            if t == 0 {
                Option::Some((CmdV::Nothing, j))
            } else if t == 1 {
                match parse_str(b, j) {
                    Option::Some((s, k)) => Option::Some((CmdV::Connect(s), k)),
                    Option::None => Option::None,
                }
            } else if t == 2 {
                match parse_str(b, j) {
                    Option::Some((p, k)) => match parse_str(b, k) {
                        Option::Some((m, l)) => Option::Some((CmdV::TransferMap(p, m), l)),
                        Option::None => Option::None,
                    },
                    Option::None => Option::None,
                }
            } else if t == 3 {
                Option::Some((CmdV::ReceivedMap, j))
            } else if t == 4 {
                match parse_u64(b, j) {
                    Option::Some((n, k)) => match parse_roster(b, k, n as nat) {
                        Option::Some((r, l)) => Option::Some((CmdV::CreatePlayer(r), l)),
                        Option::None => Option::None,
                    },
                    Option::None => Option::None,
                }
            } else if t == 5 {
                match parse_info(b, j) {
                    Option::Some((inf, k)) => Option::Some((CmdV::InsertPlayer(inf), k)),
                    Option::None => Option::None,
                }
            } else if t == 6 {
                match parse_byte(b, j) {
                    Option::Some((a, k)) => {
                        if a == 0 {
                            match parse_orient(b, k) {
                                Option::Some((o, l)) => Option::Some(
                                    (CmdV::Action(Action::Move(o)), l),
                                ),
                                Option::None => Option::None,
                            }
                        } else {
                            Option::None
                        }
                    },
                    Option::None => Option::None,
                }
            } else {
                Option::None
            }
        },
        Option::None => Option::None,
    }
}

pub open spec fn parse_dest(b: Seq<u8>, i: int) -> Option<(Option<Seq<char>>, int)> {
    match parse_byte(b, i) {
        Option::Some((t, j)) => {
            if t == 0 {
                Option::Some((Option::None, j))
            } else if t == 1 {
                match parse_str(b, j) {
                    Option::Some((s, k)) => Option::Some((Option::Some(s), k)),
                    Option::None => Option::None,
                }
            } else {
                Option::None
            }
        },
        Option::None => Option::None,
    }
}

/// What a byte sequence means: the one pack it spells, or nothing. Trailing
/// bytes make the whole sequence meaningless.
pub open spec fn spec_decode(b: Seq<u8>) -> Option<PackV> {
    match parse_u64(b, 0) {
        Option::Some((id, i)) => match parse_dest(b, i) {
            Option::Some((d, j)) => match parse_cmd(b, j) {
                Option::Some((c, k)) => {
                    if k == b.len() {
                        Option::Some(PackV { cmd: c, id, dest: d })
                    } else {
                        Option::None
                    }
                },
                Option::None => Option::None,
            },
            Option::None => Option::None,
        },
        Option::None => Option::None,
    }
}

// ---------------------------------------------------------------------------
// Executable encoder
// ---------------------------------------------------------------------------

fn emit_str(out: &mut Vec<u8>, s: &str)
    ensures
        final(out)@ == old(out)@ + str_bytes(s@),
        str_ok(s@),
{
    let bs = s.as_bytes_vec();
    let mut len_bytes = u64_to_le_bytes(bs.len() as u64);
    out.append(&mut len_bytes);
    let mut payload = bs;
    out.append(&mut payload);
    assert(out@ =~= old(out)@ + str_bytes(s@));
}

fn emit_pos(out: &mut Vec<u8>, x: i32)
    ensures
        final(out)@ == old(out)@ + spec_u32_to_le_bytes(pos_word(x as int)),
{
    let w: u32 = ((x as i64) + 0x8000_0000i64) as u32;
    let mut wb = u32_to_le_bytes(w);
    out.append(&mut wb);
}

fn orient_to_byte(o: Orientation) -> (r: u8)
    ensures
        r == orient_byte(o),
{
    match o {
        Orientation::North => 0u8,
        Orientation::South => 1u8,
        Orientation::East => 2u8,
        Orientation::West => 3u8,
    }
}

fn emit_info(out: &mut Vec<u8>, i: &PlayerInfo)
    ensures
        final(out)@ == old(out)@ + info_bytes(i@),
        info_ok(i@),
{
    emit_str(out, i.name.as_str());
    emit_pos(out, i.x);
    emit_pos(out, i.y);
    out.push(orient_to_byte(i.orientation));
    assert(out@ =~= old(out)@ + info_bytes(i@));
}

/// `roster_bytes` grows at the back when the roster does.
proof fn lemma_roster_bytes_snoc(r: Seq<PlayerInfoV>)
    requires
        r.len() > 0,
    ensures
        roster_bytes(r) == roster_bytes(r.drop_last()) + info_bytes(r.last()),
    decreases r.len(),
{
    if r.len() == 1 {
        assert(r.drop_first() =~= Seq::<PlayerInfoV>::empty());
        assert(r.drop_last() =~= Seq::<PlayerInfoV>::empty());
        assert(roster_bytes(r) =~= roster_bytes(r.drop_last()) + info_bytes(r.last()));
    } else {
        let s = r.drop_first();
        lemma_roster_bytes_snoc(s);
        assert(r.drop_last().drop_first() =~= s.drop_last());
        assert(r.drop_last().len() > 0);
        assert(r.drop_last()[0] == r[0]);
        // roster_bytes(r.drop_last()) == info_bytes(r[0]) + roster_bytes(s.drop_last())
        assert(roster_bytes(r) =~= roster_bytes(r.drop_last()) + info_bytes(r.last()));
    }
}

fn emit_cmd(out: &mut Vec<u8>, c: &Cmd)
    ensures
        final(out)@ == old(out)@ + cmd_bytes(c@),
        cmd_ok(c@),
{
    match c {
        Cmd::Nothing => {
            out.push(0u8);
            assert(out@ =~= old(out)@ + cmd_bytes(c@));
        },
        Cmd::Connect(s) => {
            out.push(1u8);
            emit_str(out, s.as_str());
            assert(out@ =~= old(out)@ + cmd_bytes(c@));
        },
        Cmd::TransferMap(p, m) => {
            out.push(2u8);
            emit_str(out, p.as_str());
            emit_str(out, m.as_str());
            assert(out@ =~= old(out)@ + cmd_bytes(c@));
        },
        Cmd::ReceivedMap => {
            out.push(3u8);
            assert(out@ =~= old(out)@ + cmd_bytes(c@));
        },
        Cmd::CreatePlayer(r) => {
            out.push(4u8);
            let mut len_bytes = u64_to_le_bytes(r.len() as u64);
            out.append(&mut len_bytes);
            let ghost rv = r@.map_values(|pi: PlayerInfo| pi@);
            let ghost mid = out@;
            let mut k: usize = 0;
            while k < r.len()
                invariant
                    k <= r.len(),
                    rv == r@.map_values(|pi: PlayerInfo| pi@),
                    rv.len() == r@.len(),
                    out@ == mid + roster_bytes(rv.subrange(0, k as int)),
                    forall|q: int| 0 <= q < k ==> info_ok(#[trigger] rv[q]),
                decreases r.len() - k,
            {
                let ghost pre = rv.subrange(0, k as int);
                emit_info(out, &r[k]);
                proof {
                    let post = rv.subrange(0, k as int + 1);
                    assert(post.drop_last() =~= pre);
                    assert(post.last() == rv[k as int]);
                    lemma_roster_bytes_snoc(post);
                    assert(mid + roster_bytes(pre) + info_bytes(rv[k as int]) =~= mid
                        + roster_bytes(post));
                }
                k = k + 1;
            }
            proof {
                assert(rv.subrange(0, rv.len() as int) =~= rv);
                assert(out@ =~= old(out)@ + cmd_bytes(c@));
            }
        },
        Cmd::InsertPlayer(i) => {
            out.push(5u8);
            emit_info(out, i);
            assert(out@ =~= old(out)@ + cmd_bytes(c@));
        },
        Cmd::Action(a) => {
            out.push(6u8);
            match a {
                Action::Move(o) => {
                    out.push(0u8);
                    out.push(orient_to_byte(*o));
                },
            }
            assert(out@ =~= old(out)@ + cmd_bytes(c@));
        },
    }
}

// ---------------------------------------------------------------------------
// Executable decoder
// ---------------------------------------------------------------------------

/// Relies on core::str::from_utf8: it returns `Ok` exactly on valid UTF-8,
/// and the string it returns is that encoding read back as characters.
#[verifier::external_body]
fn utf8_to_string(v: &[u8]) -> (r: Option<String>)
    ensures
        r is Some <==> valid_utf8(v@),
        r matches Option::Some(s) ==> s@ == decode_utf8(v@),
{
    match core::str::from_utf8(v) {
        Ok(s) => Some(s.to_owned()),
        Err(_) => None,
    }
}

fn read_u64(b: &Vec<u8>, at: usize) -> (r: Option<(u64, usize)>)
    ensures
        r matches Option::Some((v, j)) ==> parse_u64(b@, at as int) == Option::Some(
            (v, j as int),
        ),
        r is None ==> parse_u64(b@, at as int) is None,
{
    if at <= b.len() && b.len() - at >= 8 {
        let s = slice_subrange(b.as_slice(), at, at + 8);
        Some((u64_from_le_bytes(s), at + 8))
    } else {
        None
    }
}

fn read_u32(b: &Vec<u8>, at: usize) -> (r: Option<(u32, usize)>)
    ensures
        r matches Option::Some((v, j)) ==> parse_u32(b@, at as int) == Option::Some(
            (v, j as int),
        ),
        r is None ==> parse_u32(b@, at as int) is None,
{
    if at <= b.len() && b.len() - at >= 4 {
        let s = slice_subrange(b.as_slice(), at, at + 4);
        Some((u32_from_le_bytes(s), at + 4))
    } else {
        None
    }
}

fn read_byte(b: &Vec<u8>, at: usize) -> (r: Option<(u8, usize)>)
    ensures
        r matches Option::Some((v, j)) ==> parse_byte(b@, at as int) == Option::Some(
            (v, j as int),
        ),
        r is None ==> parse_byte(b@, at as int) is None,
{
    if at < b.len() {
        Some((b[at], at + 1))
    } else {
        None
    }
}

fn read_str(b: &Vec<u8>, at: usize) -> (r: Option<(String, usize)>)
    ensures
        r matches Option::Some((s, j)) ==> parse_str(b@, at as int) == Option::Some(
            (s@, j as int),
        ),
        r is None ==> parse_str(b@, at as int) is None,
{
    match read_u64(b, at) {
        None => None,
        Some((n, j)) => {
            if n <= (b.len() - j) as u64 {
                let end = j + n as usize;
                let payload = slice_subrange(b.as_slice(), j, end);
                match utf8_to_string(payload) {
                    None => None,
                    Some(s) => Some((s, end)),
                }
            } else {
                None
            }
        },
    }
}

fn read_orient(b: &Vec<u8>, at: usize) -> (r: Option<(Orientation, usize)>)
    ensures
        r matches Option::Some((o, j)) ==> parse_orient(b@, at as int) == Option::Some(
            (o, j as int),
        ),
        r is None ==> parse_orient(b@, at as int) is None,
{
    match read_byte(b, at) {
        None => None,
        Some((t, j)) => {
            if t == 0 {
                Some((Orientation::North, j))
            } else if t == 1 {
                Some((Orientation::South, j))
            } else if t == 2 {
                Some((Orientation::East, j))
            } else if t == 3 {
                Some((Orientation::West, j))
            } else {
                None
            }
        },
    }
}

fn read_info(b: &Vec<u8>, at: usize) -> (r: Option<(PlayerInfo, usize)>)
    ensures
        r matches Option::Some((i, j)) ==> parse_info(b@, at as int) == Option::Some(
            (i@, j as int),
        ),
        r is None ==> parse_info(b@, at as int) is None,
{
    match read_str(b, at) {
        None => None,
        Some((name, j)) => match read_u32(b, j) {
            None => None,
            Some((xw, k)) => match read_u32(b, k) {
                None => None,
                Some((yw, l)) => match read_orient(b, l) {
                    None => None,
                    Some((o, m)) => {
                        let x: i32 = ((xw as i64) - 0x8000_0000i64) as i32;
                        let y: i32 = ((yw as i64) - 0x8000_0000i64) as i32;
                        Some((PlayerInfo { name, x, y, orientation: o }, m))
                    },
                },
            },
        },
    }
}

/// A parsed roster prefix glued onto the outcome of parsing the rest.
pub open spec fn roster_glue(pre: Seq<PlayerInfoV>, r: Option<(Seq<PlayerInfoV>, int)>) -> Option<
    (Seq<PlayerInfoV>, int),
> {
    match r {
        Option::Some((tail, e)) => Option::Some((pre + tail, e)),
        Option::None => Option::None,
    }
}

fn read_roster(b: &Vec<u8>, at: usize, n: u64) -> (r: Option<(Vec<PlayerInfo>, usize)>)
    ensures
        r matches Option::Some((v, j)) ==> parse_roster(b@, at as int, n as nat) == Option::Some(
            (v@.map_values(|i: PlayerInfo| i@), j as int),
        ),
        r is None ==> parse_roster(b@, at as int, n as nat) is None,
{
    let mut acc: Vec<PlayerInfo> = Vec::new();
    let mut cur = at;
    let mut left = n;
    loop
        invariant
            parse_roster(b@, at as int, n as nat) == roster_glue(
                acc@.map_values(|i: PlayerInfo| i@),
                parse_roster(b@, cur as int, left as nat),
            ),
        decreases left,
    {
        if left == 0 {
            proof {
                assert(parse_roster(b@, cur as int, 0nat) == Option::Some(
                    (Seq::<PlayerInfoV>::empty(), cur as int),
                ));
                assert(acc@.map_values(|i: PlayerInfo| i@) + Seq::<PlayerInfoV>::empty()
                    =~= acc@.map_values(|i: PlayerInfo| i@));
            }
            return Some((acc, cur));
        }
        let ghost accv = acc@.map_values(|i: PlayerInfo| i@);
        match read_info(b, cur) {
            None => {
                return None;
            },
            Some((inf, j)) => {
                let ghost infv = inf@;
                acc.push(inf);
                proof {
                    assert(acc@.map_values(|i: PlayerInfo| i@) =~= accv + seq![infv]);
                    match parse_roster(b@, j as int, (left - 1) as nat) {
                        Option::Some((tail, e)) => {
                            assert(parse_roster(b@, cur as int, left as nat) == Option::Some(
                                (seq![infv] + tail, e),
                            ));
                            assert(accv + (seq![infv] + tail) =~= (accv + seq![infv]) + tail);
                        },
                        Option::None => {
                            assert(parse_roster(b@, cur as int, left as nat) is None);
                        },
                    }
                }
                cur = j;
                left = left - 1;
            },
        }
    }
}

fn read_cmd(b: &Vec<u8>, at: usize) -> (r: Option<(Cmd, usize)>)
    ensures
        r matches Option::Some((c, j)) ==> parse_cmd(b@, at as int) == Option::Some(
            (c@, j as int),
        ),
        r is None ==> parse_cmd(b@, at as int) is None,
{
    match read_byte(b, at) {
        None => None,
        Some((t, j)) => {
            if t == 0 {
                Some((Cmd::Nothing, j))
            } else if t == 1 {
                match read_str(b, j) {
                    None => None,
                    Some((s, k)) => Some((Cmd::Connect(s), k)),
                }
            } else if t == 2 {
                match read_str(b, j) {
                    None => None,
                    Some((p, k)) => match read_str(b, k) {
                        None => None,
                        Some((m, l)) => Some((Cmd::TransferMap(p, m), l)),
                    },
                }
            } else if t == 3 {
                Some((Cmd::ReceivedMap, j))
            } else if t == 4 {
                match read_u64(b, j) {
                    None => None,
                    Some((n, k)) => match read_roster(b, k, n) {
                        None => None,
                        Some((r, l)) => Some((Cmd::CreatePlayer(r), l)),
                    },
                }
            } else if t == 5 {
                match read_info(b, j) {
                    None => None,
                    Some((inf, k)) => Some((Cmd::InsertPlayer(inf), k)),
                }
            } else if t == 6 {
                match read_byte(b, j) {
                    None => None,
                    Some((a, k)) => {
                        if a == 0 {
                            match read_orient(b, k) {
                                None => None,
                                Some((o, l)) => Some((Cmd::Action(Action::Move(o)), l)),
                            }
                        } else {
                            None
                        }
                    },
                }
            } else {
                None
            }
        },
    }
}

impl Pack {
    /// Read one pack back from the wire. All-or-nothing: the result is `Ok`
    /// exactly when the bytes spell one whole pack and nothing else.
    pub fn from_bin(bin: Vec<u8>) -> (r: Result<Pack, MalformedPacket>)
        ensures
            r matches Result::Ok(p) ==> spec_decode(bin@) == Option::Some(p@),
            r is Err ==> spec_decode(bin@) is None,
    {
        match read_u64(&bin, 0) {
            None => Err(MalformedPacket),
            Some((id, i)) => match read_dest(&bin, i) {
                None => Err(MalformedPacket),
                Some((dest, j)) => match read_cmd(&bin, j) {
                    None => Err(MalformedPacket),
                    Some((cmd, k)) => {
                        if k == bin.len() {
                            Ok(Pack { cmd, id, dest })
                        } else {
                            Err(MalformedPacket)
                        }
                    },
                },
            },
        }
    }
}

fn read_dest(b: &Vec<u8>, at: usize) -> (r: Option<(Option<String>, usize)>)
    ensures
        r matches Option::Some((d, j)) ==> parse_dest(b@, at as int) == Option::Some(
            (match d {
                Option::None => Option::None::<Seq<char>>,
                Option::Some(s) => Option::Some(s@),
            }, j as int),
        ),
        r is None ==> parse_dest(b@, at as int) is None,
{
    match read_byte(b, at) {
        None => None,
        Some((t, j)) => {
            if t == 0 {
                Some((None, j))
            } else if t == 1 {
                match read_str(b, j) {
                    None => None,
                    Some((s, k)) => Some((Some(s), k)),
                }
            } else {
                None
            }
        },
    }
}

// ---------------------------------------------------------------------------
// Laws: encoding and decoding are exact inverses.
// ---------------------------------------------------------------------------

/// A window of `b` known to hold `w` can be sliced like `w` itself.
proof fn lemma_frame_slice(b: Seq<u8>, i: int, w: Seq<u8>, lo: int, hi: int)
    requires
        0 <= i,
        i + w.len() <= b.len(),
        b.subrange(i, i + w.len() as int) == w,
        0 <= lo <= hi <= w.len(),
    ensures
        b.subrange(i + lo, i + hi) == w.subrange(lo, hi),
{
    assert forall|k: int| 0 <= k < hi - lo implies b.subrange(i + lo, i + hi)[k] == w.subrange(
        lo,
        hi,
    )[k] by {
        assert(b.subrange(i, i + w.len() as int)[lo + k] == w[lo + k]);
        assert(b[i + lo + k] == w[lo + k]);
    }
    assert(b.subrange(i + lo, i + hi) =~= w.subrange(lo, hi));
}

/// A window of `b` known to hold `w` can be indexed like `w` itself.
proof fn lemma_frame_byte(b: Seq<u8>, i: int, w: Seq<u8>, k: int)
    requires
        0 <= i,
        i + w.len() <= b.len(),
        b.subrange(i, i + w.len() as int) == w,
        0 <= k < w.len(),
    ensures
        b[i + k] == w[k],
{
    assert(b.subrange(i, i + w.len() as int)[k] == w[k]);
}

/// Two adjacent windows of `b` join into one.
proof fn lemma_join_slices(b: Seq<u8>, i: int, mid: int, j: int)
    requires
        0 <= i <= mid <= j <= b.len(),
    ensures
        b.subrange(i, j) == b.subrange(i, mid) + b.subrange(mid, j),
{
    assert(b.subrange(i, j) =~= b.subrange(i, mid) + b.subrange(mid, j));
}

proof fn lemma_parse_u64_at(b: Seq<u8>, i: int, x: u64)
    requires
        0 <= i,
        i + 8 <= b.len(),
        b.subrange(i, i + 8) == spec_u64_to_le_bytes(x),
    ensures
        parse_u64(b, i) == Option::Some((x, i + 8)),
{
    lemma_auto_spec_u64_to_from_le_bytes();
}

proof fn lemma_parse_u32_at(b: Seq<u8>, i: int, x: u32)
    requires
        0 <= i,
        i + 4 <= b.len(),
        b.subrange(i, i + 4) == spec_u32_to_le_bytes(x),
    ensures
        parse_u32(b, i) == Option::Some((x, i + 4)),
{
    lemma_auto_spec_u32_to_from_le_bytes();
    assert(spec_u32_to_le_bytes(x).len() == 4);
}

proof fn lemma_parse_str_at(b: Seq<u8>, i: int, s: Seq<char>)
    requires
        0 <= i,
        str_ok(s),
        i + str_bytes(s).len() <= b.len(),
        b.subrange(i, i + str_bytes(s).len()) == str_bytes(s),
    ensures
        parse_str(b, i) == Option::Some((s, i + str_bytes(s).len())),
{
    let w = str_bytes(s);
    let e = encode_utf8(s);
    let n = e.len() as u64;
    lemma_auto_spec_u64_to_from_le_bytes();
    assert(w.len() == 8 + e.len());
    lemma_frame_slice(b, i, w, 0, 8);
    assert(w.subrange(0, 8) =~= spec_u64_to_le_bytes(n));
    lemma_parse_u64_at(b, i, n);
    lemma_frame_slice(b, i, w, 8, w.len() as int);
    assert(w.subrange(8, w.len() as int) =~= e);
    encode_utf8_valid_utf8(s);
    encode_utf8_decode_utf8(s);
}

proof fn lemma_parse_orient_at(b: Seq<u8>, i: int, o: Orientation)
    requires
        0 <= i,
        i + 1 <= b.len(),
        b[i] == orient_byte(o),
    ensures
        parse_orient(b, i) == Option::Some((o, i + 1)),
{
}

proof fn lemma_parse_info_at(b: Seq<u8>, i: int, inf: PlayerInfoV)
    requires
        0 <= i,
        info_ok(inf),
        i + info_bytes(inf).len() <= b.len(),
        b.subrange(i, i + info_bytes(inf).len()) == info_bytes(inf),
    ensures
        parse_info(b, i) == Option::Some((inf, i + info_bytes(inf).len())),
{
    let w = info_bytes(inf);
    let nb = str_bytes(inf.name);
    let xb = spec_u32_to_le_bytes(pos_word(inf.x));
    let yb = spec_u32_to_le_bytes(pos_word(inf.y));
    lemma_auto_spec_u32_to_from_le_bytes();
    assert(xb.len() == 4 && yb.len() == 4);
    let nl = nb.len() as int;
    assert(w.len() == nl + 9);
    lemma_frame_slice(b, i, w, 0, nl);
    assert(w.subrange(0, nl) =~= nb);
    lemma_parse_str_at(b, i, inf.name);
    lemma_frame_slice(b, i, w, nl, nl + 4);
    assert(w.subrange(nl, nl + 4) =~= xb);
    lemma_parse_u32_at(b, i + nl, pos_word(inf.x));
    lemma_frame_slice(b, i, w, nl + 4, nl + 8);
    assert(w.subrange(nl + 4, nl + 8) =~= yb);
    lemma_parse_u32_at(b, i + nl + 4, pos_word(inf.y));
    lemma_frame_byte(b, i, w, nl + 8);
    assert(w[nl + 8] == orient_byte(inf.orientation));
    lemma_parse_orient_at(b, i + nl + 8, inf.orientation);
    assert(pos_word(inf.x) as int - 0x8000_0000 == inf.x);
    assert(pos_word(inf.y) as int - 0x8000_0000 == inf.y);
}

proof fn lemma_parse_roster_at(b: Seq<u8>, i: int, r: Seq<PlayerInfoV>)
    requires
        0 <= i,
        forall|k: int| 0 <= k < r.len() ==> info_ok(#[trigger] r[k]),
        i + roster_bytes(r).len() <= b.len(),
        b.subrange(i, i + roster_bytes(r).len()) == roster_bytes(r),
    ensures
        parse_roster(b, i, r.len() as nat) == Option::Some((r, i + roster_bytes(r).len())),
    decreases r.len(),
{
    if r.len() == 0 {
        assert(r =~= Seq::<PlayerInfoV>::empty());
    } else {
        let w = roster_bytes(r);
        let ib = info_bytes(r[0]);
        let rest = r.drop_first();
        assert(w == ib + roster_bytes(rest));
        let il = ib.len() as int;
        lemma_frame_slice(b, i, w, 0, il);
        assert(w.subrange(0, il) =~= ib);
        lemma_parse_info_at(b, i, r[0]);
        lemma_frame_slice(b, i, w, il, w.len() as int);
        assert(w.subrange(il, w.len() as int) =~= roster_bytes(rest));
        assert(forall|k: int| 0 <= k < rest.len() ==> info_ok(#[trigger] rest[k]));
        lemma_parse_roster_at(b, i + il, rest);
        assert(seq![r[0]] + rest =~= r);
    }
}

proof fn lemma_parse_dest_at(b: Seq<u8>, i: int, d: Option<Seq<char>>)
    requires
        0 <= i,
        dest_ok(d),
        i + dest_bytes(d).len() <= b.len(),
        b.subrange(i, i + dest_bytes(d).len()) == dest_bytes(d),
    ensures
        parse_dest(b, i) == Option::Some((d, i + dest_bytes(d).len())),
{
    let w = dest_bytes(d);
    lemma_frame_byte(b, i, w, 0);
    match d {
        Option::None => {},
        Option::Some(s) => {
            assert(w[0] == 1u8);
            lemma_frame_slice(b, i, w, 1, w.len() as int);
            assert(w.subrange(1, w.len() as int) =~= str_bytes(s));
            lemma_parse_str_at(b, i + 1, s);
        },
    }
}

proof fn lemma_parse_cmd_at(b: Seq<u8>, i: int, c: CmdV)
    requires
        0 <= i,
        cmd_ok(c),
        i + cmd_bytes(c).len() <= b.len(),
        b.subrange(i, i + cmd_bytes(c).len()) == cmd_bytes(c),
    ensures
        parse_cmd(b, i) == Option::Some((c, i + cmd_bytes(c).len())),
{
    let w = cmd_bytes(c);
    lemma_frame_byte(b, i, w, 0);
    match c {
        CmdV::Nothing => {},
        CmdV::Connect(s) => {
            lemma_frame_slice(b, i, w, 1, w.len() as int);
            assert(w.subrange(1, w.len() as int) =~= str_bytes(s));
            lemma_parse_str_at(b, i + 1, s);
        },
        CmdV::TransferMap(p, m) => {
            let pl = str_bytes(p).len() as int;
            lemma_frame_slice(b, i, w, 1, 1 + pl);
            assert(w.subrange(1, 1 + pl) =~= str_bytes(p));
            lemma_parse_str_at(b, i + 1, p);
            lemma_frame_slice(b, i, w, 1 + pl, w.len() as int);
            assert(w.subrange(1 + pl, w.len() as int) =~= str_bytes(m));
            lemma_parse_str_at(b, i + 1 + pl, m);
        },
        CmdV::ReceivedMap => {},
        CmdV::CreatePlayer(r) => {
            lemma_auto_spec_u64_to_from_le_bytes();
            let n = r.len() as u64;
            lemma_frame_slice(b, i, w, 1, 9);
            assert(w.subrange(1, 9) =~= spec_u64_to_le_bytes(n));
            lemma_parse_u64_at(b, i + 1, n);
            lemma_frame_slice(b, i, w, 9, w.len() as int);
            assert(w.subrange(9, w.len() as int) =~= roster_bytes(r));
            lemma_parse_roster_at(b, i + 9, r);
        },
        CmdV::InsertPlayer(inf) => {
            lemma_frame_slice(b, i, w, 1, w.len() as int);
            assert(w.subrange(1, w.len() as int) =~= info_bytes(inf));
            lemma_parse_info_at(b, i + 1, inf);
        },
        CmdV::Action(a) => {
            match a {
                Action::Move(o) => {
                    lemma_frame_byte(b, i, w, 1);
                    lemma_frame_byte(b, i, w, 2);
                    assert(w[1] == 0u8 && w[2] == orient_byte(o));
                    lemma_parse_orient_at(b, i + 2, o);
                },
            }
        },
    }
}

/// Round-trip law: every representable pack decodes from its own encoding
/// back to itself, structurally equal — empty strings and an empty roster
/// included.
pub proof fn lemma_round_trip(p: PackV)
    requires
        pack_ok(p),
    ensures
        spec_decode(pack_bytes(p)) == Option::Some(p),
{
    let b = pack_bytes(p);
    let db = dest_bytes(p.dest);
    let cb = cmd_bytes(p.cmd);
    lemma_auto_spec_u64_to_from_le_bytes();
    assert(b.subrange(0, b.len() as int) =~= b);
    lemma_frame_slice(b, 0, b, 0, 8);
    assert(b.subrange(0, 8) =~= spec_u64_to_le_bytes(p.id));
    lemma_parse_u64_at(b, 0, p.id);
    lemma_frame_slice(b, 0, b, 8, 8 + db.len() as int);
    assert(b.subrange(8, 8 + db.len() as int) =~= db);
    lemma_parse_dest_at(b, 8, p.dest);
    let j = 8 + db.len() as int;
    lemma_frame_slice(b, 0, b, j, b.len() as int);
    assert(b.subrange(j, b.len() as int) =~= cb);
    lemma_parse_cmd_at(b, j, p.cmd);
    assert(p == PackV { cmd: p.cmd, id: p.id, dest: p.dest });
}

proof fn lemma_parse_str_inv(b: Seq<u8>, i: int, s: Seq<char>, j: int)
    requires
        parse_str(b, i) == Option::Some((s, j)),
    ensures
        str_ok(s),
        0 <= i,
        i + str_bytes(s).len() == j,
        j <= b.len(),
        b.subrange(i, j) == str_bytes(s),
{
    lemma_auto_spec_u64_to_from_le_bytes();
    match parse_u64(b, i) {
        Option::Some((n, m)) => {
            let payload = b.subrange(m, m + n as int);
            decode_utf8_encode_utf8(payload);
            assert(encode_utf8(s) == payload);
            assert(spec_u64_to_le_bytes(spec_u64_from_le_bytes(b.subrange(i, i + 8)))
                == b.subrange(i, i + 8));
            lemma_join_slices(b, i, m, j);
        },
        Option::None => {
            assert(false);
        },
    }
}

proof fn lemma_parse_orient_inv(b: Seq<u8>, i: int, o: Orientation, j: int)
    requires
        parse_orient(b, i) == Option::Some((o, j)),
    ensures
        0 <= i,
        i + 1 == j,
        j <= b.len(),
        b[i] == orient_byte(o),
{
}

proof fn lemma_parse_info_inv(b: Seq<u8>, i: int, inf: PlayerInfoV, j: int)
    requires
        parse_info(b, i) == Option::Some((inf, j)),
    ensures
        info_ok(inf),
        0 <= i,
        i + info_bytes(inf).len() == j,
        j <= b.len(),
        b.subrange(i, j) == info_bytes(inf),
{
    lemma_auto_spec_u32_to_from_le_bytes();
    match parse_str(b, i) {
        Option::Some((name, j1)) => {
            lemma_parse_str_inv(b, i, name, j1);
            match parse_u32(b, j1) {
                Option::Some((xw, j2)) => {
                    match parse_u32(b, j2) {
                        Option::Some((yw, j3)) => {
                            match parse_orient(b, j3) {
                                Option::Some((o, j4)) => {
                                    lemma_parse_orient_inv(b, j3, o, j4);
                                    assert(pos_ok(inf.x) && pos_word(inf.x) == xw);
                                    assert(pos_ok(inf.y) && pos_word(inf.y) == yw);
                                    assert(spec_u32_to_le_bytes(spec_u32_from_le_bytes(
                                        b.subrange(j1, j1 + 4),
                                    )) == b.subrange(j1, j1 + 4));
                                    assert(spec_u32_to_le_bytes(spec_u32_from_le_bytes(
                                        b.subrange(j2, j2 + 4),
                                    )) == b.subrange(j2, j2 + 4));
                                    assert(b.subrange(j3, j4) =~= seq![orient_byte(
                                        inf.orientation,
                                    )]);
                                    lemma_join_slices(b, j2, j3, j4);
                                    lemma_join_slices(b, j1, j2, j4);
                                    lemma_join_slices(b, i, j1, j4);
                                },
                                Option::None => {
                                    assert(false);
                                },
                            }
                        },
                        Option::None => {
                            assert(false);
                        },
                    }
                },
                Option::None => {
                    assert(false);
                },
            }
        },
        Option::None => {
            assert(false);
        },
    }
}

proof fn lemma_parse_roster_inv(b: Seq<u8>, i: int, n: nat, r: Seq<PlayerInfoV>, j: int)
    requires
        0 <= i <= b.len(),
        parse_roster(b, i, n) == Option::Some((r, j)),
    ensures
        r.len() == n,
        forall|k: int| 0 <= k < r.len() ==> info_ok(#[trigger] r[k]),
        i + roster_bytes(r).len() == j,
        i <= j <= b.len(),
        b.subrange(i, j) == roster_bytes(r),
    decreases n,
{
    if n == 0 {
        assert(r =~= Seq::<PlayerInfoV>::empty());
        assert(b.subrange(i, j) =~= roster_bytes(r));
    } else {
        match parse_info(b, i) {
            Option::Some((inf, j1)) => {
                lemma_parse_info_inv(b, i, inf, j1);
                match parse_roster(b, j1, (n - 1) as nat) {
                    Option::Some((rest, j2)) => {
                        lemma_parse_roster_inv(b, j1, (n - 1) as nat, rest, j2);
                        assert(r == seq![inf] + rest);
                        assert(r[0] == inf);
                        assert(r.drop_first() =~= rest);
                        assert(roster_bytes(r) == info_bytes(inf) + roster_bytes(rest));
                        lemma_join_slices(b, i, j1, j);
                    },
                    Option::None => {
                        assert(false);
                    },
                }
            },
            Option::None => {
                assert(false);
            },
        }
    }
}

proof fn lemma_parse_dest_inv(b: Seq<u8>, i: int, d: Option<Seq<char>>, j: int)
    requires
        parse_dest(b, i) == Option::Some((d, j)),
    ensures
        dest_ok(d),
        0 <= i,
        i + dest_bytes(d).len() == j,
        j <= b.len(),
        b.subrange(i, j) == dest_bytes(d),
{
    match d {
        Option::None => {
            assert(b.subrange(i, j) =~= dest_bytes(d));
        },
        Option::Some(s) => {
            match parse_str(b, i + 1) {
                Option::Some((s1, j1)) => {
                    lemma_parse_str_inv(b, i + 1, s1, j1);
                    assert(b.subrange(i, i + 1) =~= seq![1u8]);
                    lemma_join_slices(b, i, i + 1, j);
                },
                Option::None => {
                    assert(false);
                },
            }
        },
    }
}

proof fn lemma_parse_cmd_inv(b: Seq<u8>, i: int, c: CmdV, j: int)
    requires
        parse_cmd(b, i) == Option::Some((c, j)),
    ensures
        cmd_ok(c),
        0 <= i,
        i + cmd_bytes(c).len() == j,
        j <= b.len(),
        b.subrange(i, j) == cmd_bytes(c),
{
    match c {
        CmdV::Nothing => {
            assert(b.subrange(i, j) =~= cmd_bytes(c));
        },
        CmdV::Connect(s) => {
            match parse_str(b, i + 1) {
                Option::Some((s1, j1)) => {
                    lemma_parse_str_inv(b, i + 1, s1, j1);
                    assert(b.subrange(i, i + 1) =~= seq![1u8]);
                    lemma_join_slices(b, i, i + 1, j);
                },
                Option::None => {
                    assert(false);
                },
            }
        },
        CmdV::TransferMap(p, m) => {
            match parse_str(b, i + 1) {
                Option::Some((p1, j1)) => {
                    lemma_parse_str_inv(b, i + 1, p1, j1);
                    match parse_str(b, j1) {
                        Option::Some((m1, j2)) => {
                            lemma_parse_str_inv(b, j1, m1, j2);
                            assert(b.subrange(i, i + 1) =~= seq![2u8]);
                            lemma_join_slices(b, i + 1, j1, j);
                            lemma_join_slices(b, i, i + 1, j);
                        },
                        Option::None => {
                            assert(false);
                        },
                    }
                },
                Option::None => {
                    assert(false);
                },
            }
        },
        CmdV::ReceivedMap => {
            assert(b.subrange(i, j) =~= cmd_bytes(c));
        },
        CmdV::CreatePlayer(r) => {
            lemma_auto_spec_u64_to_from_le_bytes();
            match parse_u64(b, i + 1) {
                Option::Some((n, j1)) => {
                    match parse_roster(b, j1, n as nat) {
                        Option::Some((r1, j2)) => {
                            lemma_parse_roster_inv(b, j1, n as nat, r1, j2);
                            assert(r.len() as u64 == n);
                            assert(spec_u64_to_le_bytes(spec_u64_from_le_bytes(
                                b.subrange(i + 1, i + 9),
                            )) == b.subrange(i + 1, i + 9));
                            assert(b.subrange(i, i + 1) =~= seq![4u8]);
                            lemma_join_slices(b, i + 1, j1, j);
                            lemma_join_slices(b, i, i + 1, j);
                        },
                        Option::None => {
                            assert(false);
                        },
                    }
                },
                Option::None => {
                    assert(false);
                },
            }
        },
        CmdV::InsertPlayer(inf) => {
            match parse_info(b, i + 1) {
                Option::Some((inf1, j1)) => {
                    lemma_parse_info_inv(b, i + 1, inf1, j1);
                    assert(b.subrange(i, i + 1) =~= seq![5u8]);
                    lemma_join_slices(b, i, i + 1, j);
                },
                Option::None => {
                    assert(false);
                },
            }
        },
        CmdV::Action(a) => {
            match a {
                Action::Move(o) => {
                    match parse_orient(b, i + 2) {
                        Option::Some((o1, j1)) => {
                            lemma_parse_orient_inv(b, i + 2, o1, j1);
                            assert(b.subrange(i, j) =~= cmd_bytes(c));
                        },
                        Option::None => {
                            assert(false);
                        },
                    }
                },
            }
        },
    }
}

/// Decode exactness: bytes decode only to the one pack whose encoding they
/// are. Truncated, tag-invalid or otherwise malformed input therefore never
/// decodes — in particular never to a default command.
pub proof fn lemma_decode_exact(b: Seq<u8>, p: PackV)
    requires
        spec_decode(b) == Option::Some(p),
    ensures
        pack_ok(p),
        b == pack_bytes(p),
{
    lemma_auto_spec_u64_to_from_le_bytes();
    match parse_u64(b, 0) {
        Option::Some((id, i)) => {
            match parse_dest(b, i) {
                Option::Some((d, j)) => {
                    match parse_cmd(b, j) {
                        Option::Some((c, k)) => {
                            lemma_parse_dest_inv(b, i, d, j);
                            lemma_parse_cmd_inv(b, j, c, k);
                            assert(spec_u64_to_le_bytes(spec_u64_from_le_bytes(b.subrange(0, 8)))
                                == b.subrange(0, 8));
                            lemma_join_slices(b, 8, j, k);
                            lemma_join_slices(b, 0, 8, k);
                            assert(b.subrange(0, b.len() as int) =~= b);
                        },
                        Option::None => {
                            assert(false);
                        },
                    }
                },
                Option::None => {
                    assert(false);
                },
            }
        },
        Option::None => {
            assert(false);
        },
    }
}

impl Pack {
    /// Frame this pack for the wire.
    pub fn to_bin(&self) -> (r: Vec<u8>)
        ensures
            r@ == pack_bytes(self@),
            pack_ok(self@),
    {
        let mut out: Vec<u8> = u64_to_le_bytes(self.id);
        match &self.dest {
            Option::None => {
                out.push(0u8);
            },
            Option::Some(s) => {
                out.push(1u8);
                emit_str(&mut out, s.as_str());
            },
        }
        emit_cmd(&mut out, &self.cmd);
        assert(out@ =~= pack_bytes(self@));
        out
    }
}

} // verus!
