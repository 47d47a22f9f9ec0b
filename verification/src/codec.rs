//! The wire codec: flat, order-dependent field walks with fixed little-endian
//! numeric encodings, no compression and no optional fields.
//!
//! Every encodable value has a spec-level serializer (`spec_enc_*`) and a
//! spec-level parser (`spec_parse_*`); a parser consumes a prefix of its
//! input and returns the value together with the remaining bytes. The
//! executable functions are proved against these, and the two sides are tied
//! together by inverse lemmas (`lemma_parse_enc_*`): parsing an encoding
//! yields the encoded value and leaves the rest untouched.

use vstd::bytes::{
    lemma_auto_spec_u32_to_from_le_bytes, lemma_auto_spec_u64_to_from_le_bytes,
    spec_u32_from_le_bytes, spec_u32_to_le_bytes, spec_u64_from_le_bytes, spec_u64_to_le_bytes,
    u32_from_le_bytes, u32_to_le_bytes, u64_from_le_bytes, u64_to_le_bytes,
};
use vstd::prelude::*;
use vstd::slice::{slice_index_get, slice_subrange};

use crate::game::{
    wf_game_state, BallState, BoostPadState, CarConfig, CarControls, CarInfo, CarState, GameMode,
    GameState, GameStateView, Team, WheelPairConfig, WheelsWithContact, MAX_CARS, MAX_PADS,
};
use crate::math::{Color, RotMat, Vec3};

verus! {

// ---------------------------------------------------------------------------
// Spec-level serializers for the primitive fields
// ---------------------------------------------------------------------------

/// A boolean on the wire: one byte, `0` or `1`.
pub open spec fn spec_enc_bool(b: bool) -> Seq<u8> {
    seq![if b { 1u8 } else { 0u8 }]
}

/// A team on the wire: one byte.
pub open spec fn spec_enc_team(t: Team) -> Seq<u8> {
    match t {
        Team::Blue => seq![0u8],
        Team::Orange => seq![1u8],
    }
}

/// A game mode on the wire: one byte.
pub open spec fn spec_enc_game_mode(m: GameMode) -> Seq<u8> {
    match m {
        GameMode::Soccar => seq![0u8],
        GameMode::Hoops => seq![1u8],
        GameMode::Heatseeker => seq![2u8],
        GameMode::Snowday => seq![3u8],
        GameMode::TheVoid => seq![4u8],
    }
}

/// A vector on the wire: three little-endian 32-bit components.
pub open spec fn spec_enc_vec3(v: Vec3) -> Seq<u8> {
    spec_u32_to_le_bytes(v.x) + spec_u32_to_le_bytes(v.y) + spec_u32_to_le_bytes(v.z)
}

/// A rotation matrix on the wire: its three basis vectors.
pub open spec fn spec_enc_rot_mat(m: RotMat) -> Seq<u8> {
    spec_enc_vec3(m.forward) + spec_enc_vec3(m.right) + spec_enc_vec3(m.up)
}

/// A color on the wire: four channel bytes.
pub open spec fn spec_enc_color(c: Color) -> Seq<u8> {
    seq![c.r, c.g, c.b, c.a]
}

// ---------------------------------------------------------------------------
// Spec-level parsers for the primitive fields
// ---------------------------------------------------------------------------

/// Parses one strict boolean byte.
pub open spec fn spec_parse_bool(s: Seq<u8>) -> Option<(bool, Seq<u8>)> {
    if s.len() >= 1 && (s[0] == 0 || s[0] == 1) {
        Some((s[0] == 1, s.skip(1)))
    } else {
        None
    }
}

/// Parses one team byte.
pub open spec fn spec_parse_team(s: Seq<u8>) -> Option<(Team, Seq<u8>)> {
    if s.len() >= 1 && (s[0] == 0 || s[0] == 1) {
        Some((if s[0] == 0 { Team::Blue } else { Team::Orange }, s.skip(1)))
    } else {
        None
    }
}

/// Parses one game-mode byte.
pub open spec fn spec_parse_game_mode(s: Seq<u8>) -> Option<(GameMode, Seq<u8>)> {
    if s.len() >= 1 && s[0] <= 4 {
        let m = if s[0] == 0 {
            GameMode::Soccar
        } else if s[0] == 1 {
            GameMode::Hoops
        } else if s[0] == 2 {
            GameMode::Heatseeker
        } else if s[0] == 3 {
            GameMode::Snowday
        } else {
            GameMode::TheVoid
        };
        Some((m, s.skip(1)))
    } else {
        None
    }
}

/// Parses a little-endian 32-bit integer.
pub open spec fn spec_parse_u32(s: Seq<u8>) -> Option<(u32, Seq<u8>)> {
    if s.len() >= 4 {
        Some((spec_u32_from_le_bytes(s.take(4)), s.skip(4)))
    } else {
        None
    }
}

/// Parses a little-endian 64-bit integer.
pub open spec fn spec_parse_u64(s: Seq<u8>) -> Option<(u64, Seq<u8>)> {
    if s.len() >= 8 {
        Some((spec_u64_from_le_bytes(s.take(8)), s.skip(8)))
    } else {
        None
    }
}

/// Parses a vector: three 32-bit components.
pub open spec fn spec_parse_vec3(s: Seq<u8>) -> Option<(Vec3, Seq<u8>)> {
    match spec_parse_u32(s) {
        None => None,
        Some((x, s)) => match spec_parse_u32(s) {
            None => None,
            Some((y, s)) => match spec_parse_u32(s) {
                None => None,
                Some((z, s)) => Some((Vec3 { x, y, z }, s)),
            },
        },
    }
}

/// Parses a rotation matrix: three basis vectors.
pub open spec fn spec_parse_rot_mat(s: Seq<u8>) -> Option<(RotMat, Seq<u8>)> {
    match spec_parse_vec3(s) {
        None => None,
        Some((forward, s)) => match spec_parse_vec3(s) {
            None => None,
            Some((right, s)) => match spec_parse_vec3(s) {
                None => None,
                Some((up, s)) => Some((RotMat { forward, right, up }, s)),
            },
        },
    }
}

/// Parses a color: four channel bytes.
pub open spec fn spec_parse_color(s: Seq<u8>) -> Option<(Color, Seq<u8>)> {
    if s.len() >= 4 {
        Some((Color { r: s[0], g: s[1], b: s[2], a: s[3] }, s.skip(4)))
    } else {
        None
    }
}

// ---------------------------------------------------------------------------
// Inverse lemmas for the primitive fields
// ---------------------------------------------------------------------------

/// Parsing an encoded boolean yields it back.
pub proof fn lemma_parse_enc_bool(b: bool, rest: Seq<u8>)
    ensures
        spec_parse_bool(spec_enc_bool(b) + rest) == Some((b, rest)),
{
    assert((spec_enc_bool(b) + rest).skip(1) =~= rest);
}

/// Parsing an encoded team byte yields it back.
pub proof fn lemma_parse_enc_team(t: Team, rest: Seq<u8>)
    ensures
        spec_parse_team(spec_enc_team(t) + rest) == Some((t, rest)),
{
    assert((spec_enc_team(t) + rest).skip(1) =~= rest);
}

/// Parsing an encoded game-mode byte yields it back.
pub proof fn lemma_parse_enc_game_mode(m: GameMode, rest: Seq<u8>)
    ensures
        spec_parse_game_mode(spec_enc_game_mode(m) + rest) == Some((m, rest)),
{
    assert((spec_enc_game_mode(m) + rest).skip(1) =~= rest);
}

/// Parsing an encoded 32-bit integer yields it back.
pub proof fn lemma_parse_enc_u32(v: u32, rest: Seq<u8>)
    ensures
        spec_parse_u32(spec_u32_to_le_bytes(v) + rest) == Some((v, rest)),
{
    lemma_auto_spec_u32_to_from_le_bytes();
    assert((spec_u32_to_le_bytes(v) + rest).take(4) =~= spec_u32_to_le_bytes(v));
    assert((spec_u32_to_le_bytes(v) + rest).skip(4) =~= rest);
}

/// Parsing an encoded 64-bit integer yields it back.
pub proof fn lemma_parse_enc_u64(v: u64, rest: Seq<u8>)
    ensures
        spec_parse_u64(spec_u64_to_le_bytes(v) + rest) == Some((v, rest)),
{
    lemma_auto_spec_u64_to_from_le_bytes();
    assert((spec_u64_to_le_bytes(v) + rest).take(8) =~= spec_u64_to_le_bytes(v));
    assert((spec_u64_to_le_bytes(v) + rest).skip(8) =~= rest);
}

/// Parsing an encoded vector yields it back.
pub proof fn lemma_parse_enc_vec3(v: Vec3, rest: Seq<u8>)
    ensures
        spec_parse_vec3(spec_enc_vec3(v) + rest) == Some((v, rest)),
{
    assert(spec_enc_vec3(v) + rest =~= spec_u32_to_le_bytes(v.x) + (spec_u32_to_le_bytes(v.y)
        + (spec_u32_to_le_bytes(v.z) + rest)));
    lemma_parse_enc_u32(v.x, spec_u32_to_le_bytes(v.y) + (spec_u32_to_le_bytes(v.z) + rest));
    lemma_parse_enc_u32(v.y, spec_u32_to_le_bytes(v.z) + rest);
    lemma_parse_enc_u32(v.z, rest);
}

/// Parsing an encoded rotation matrix yields it back.
pub proof fn lemma_parse_enc_rot_mat(m: RotMat, rest: Seq<u8>)
    ensures
        spec_parse_rot_mat(spec_enc_rot_mat(m) + rest) == Some((m, rest)),
{
    assert(spec_enc_rot_mat(m) + rest =~= spec_enc_vec3(m.forward) + (spec_enc_vec3(m.right)
        + (spec_enc_vec3(m.up) + rest)));
    lemma_parse_enc_vec3(m.forward, spec_enc_vec3(m.right) + (spec_enc_vec3(m.up) + rest));
    lemma_parse_enc_vec3(m.right, spec_enc_vec3(m.up) + rest);
    lemma_parse_enc_vec3(m.up, rest);
}

/// Parsing an encoded color yields it back.
pub proof fn lemma_parse_enc_color(c: Color, rest: Seq<u8>)
    ensures
        spec_parse_color(spec_enc_color(c) + rest) == Some((c, rest)),
{
    assert((spec_enc_color(c) + rest).skip(4) =~= rest);
}

// ---------------------------------------------------------------------------
// Executable writers: each appends exactly its spec encoding
// ---------------------------------------------------------------------------

/// Appends one strict boolean byte.
pub fn put_bool(out: &mut Vec<u8>, b: bool)
    ensures
        final(out)@ == old(out)@ + spec_enc_bool(b),
{
    out.push(if b { 1 } else { 0 });
    assert(out@ =~= old(out)@ + spec_enc_bool(b));
}

/// Appends one team byte.
pub fn put_team(out: &mut Vec<u8>, t: Team)
    ensures
        final(out)@ == old(out)@ + spec_enc_team(t),
{
    out.push(match t {
        Team::Blue => 0,
        Team::Orange => 1,
    });
    assert(out@ =~= old(out)@ + spec_enc_team(t));
}

/// Appends one game-mode byte.
pub fn put_game_mode(out: &mut Vec<u8>, m: GameMode)
    ensures
        final(out)@ == old(out)@ + spec_enc_game_mode(m),
{
    out.push(match m {
        GameMode::Soccar => 0,
        GameMode::Hoops => 1,
        GameMode::Heatseeker => 2,
        GameMode::Snowday => 3,
        GameMode::TheVoid => 4,
    });
    assert(out@ =~= old(out)@ + spec_enc_game_mode(m));
}

/// Appends a little-endian 32-bit integer.
pub fn put_u32(out: &mut Vec<u8>, v: u32)
    ensures
        final(out)@ == old(out)@ + spec_u32_to_le_bytes(v),
{
    let mut b = u32_to_le_bytes(v);
    out.append(&mut b);
}

/// Appends a little-endian 64-bit integer.
pub fn put_u64(out: &mut Vec<u8>, v: u64)
    ensures
        final(out)@ == old(out)@ + spec_u64_to_le_bytes(v),
{
    let mut b = u64_to_le_bytes(v);
    out.append(&mut b);
}

/// Appends a vector.
pub fn put_vec3(out: &mut Vec<u8>, v: Vec3)
    ensures
        final(out)@ == old(out)@ + spec_enc_vec3(v),
{
    put_u32(out, v.x);
    put_u32(out, v.y);
    put_u32(out, v.z);
    assert(out@ =~= old(out)@ + spec_enc_vec3(v));
}

/// Appends a rotation matrix.
pub fn put_rot_mat(out: &mut Vec<u8>, m: RotMat)
    ensures
        final(out)@ == old(out)@ + spec_enc_rot_mat(m),
{
    put_vec3(out, m.forward);
    put_vec3(out, m.right);
    put_vec3(out, m.up);
    assert(out@ =~= old(out)@ + spec_enc_rot_mat(m));
}

/// Appends a color.
pub fn put_color(out: &mut Vec<u8>, c: Color)
    ensures
        final(out)@ == old(out)@ + spec_enc_color(c),
{
    out.push(c.r);
    out.push(c.g);
    out.push(c.b);
    out.push(c.a);
    assert(out@ =~= old(out)@ + spec_enc_color(c));
}

// ---------------------------------------------------------------------------
// Executable readers: a cursor into a byte slice, proved against the parsers
// ---------------------------------------------------------------------------

/// Reads one strict boolean byte at the cursor.
pub fn read_bool(s: &[u8], pos: &mut usize) -> (r: Option<bool>)
    requires
        *old(pos) < s@.len(),
    ensures
        match r {
            Some(b) => {
                &&& *final(pos) == *old(pos) + 1
                &&& spec_parse_bool(s@.skip(*old(pos) as int)) == Some((
                    b,
                    s@.skip(*old(pos) + 1),
                ))
            },
            None => {
                &&& *final(pos) == *old(pos)
                &&& spec_parse_bool(s@.skip(*old(pos) as int)) is None
            },
        },
{
    let slen: usize = s.len();
    let b = *slice_index_get(s, *pos);
    proof {
        assert(s@.skip(*pos as int)[0] == s@[*pos as int]);
    }
    if b == 0 || b == 1 {
        *pos = *pos + 1;
        proof {
            assert(s@.skip(*old(pos) as int).skip(1) =~= s@.skip(*old(pos) + 1));
        }
        Some(b == 1)
    } else {
        None
    }
}

/// Reads one team byte at the cursor.
pub fn read_team(s: &[u8], pos: &mut usize) -> (r: Option<Team>)
    requires
        *old(pos) < s@.len(),
    ensures
        match r {
            Some(t) => {
                &&& *final(pos) == *old(pos) + 1
                &&& spec_parse_team(s@.skip(*old(pos) as int)) == Some((
                    t,
                    s@.skip(*old(pos) + 1),
                ))
            },
            None => {
                &&& *final(pos) == *old(pos)
                &&& spec_parse_team(s@.skip(*old(pos) as int)) is None
            },
        },
{
    let slen: usize = s.len();
    let b = *slice_index_get(s, *pos);
    proof {
        assert(s@.skip(*pos as int)[0] == s@[*pos as int]);
    }
    if b == 0 || b == 1 {
        *pos = *pos + 1;
        proof {
            assert(s@.skip(*old(pos) as int).skip(1) =~= s@.skip(*old(pos) + 1));
        }
        Some(if b == 0 { Team::Blue } else { Team::Orange })
    } else {
        None
    }
}

/// Reads one game-mode byte at the cursor.
pub fn read_game_mode(s: &[u8], pos: &mut usize) -> (r: Option<GameMode>)
    requires
        *old(pos) < s@.len(),
    ensures
        match r {
            Some(m) => {
                &&& *final(pos) == *old(pos) + 1
                &&& spec_parse_game_mode(s@.skip(*old(pos) as int)) == Some((
                    m,
                    s@.skip(*old(pos) + 1),
                ))
            },
            None => {
                &&& *final(pos) == *old(pos)
                &&& spec_parse_game_mode(s@.skip(*old(pos) as int)) is None
            },
        },
{
    let slen: usize = s.len();
    let b = *slice_index_get(s, *pos);
    proof {
        assert(s@.skip(*pos as int)[0] == s@[*pos as int]);
    }
    if b <= 4 {
        *pos = *pos + 1;
        proof {
            assert(s@.skip(*old(pos) as int).skip(1) =~= s@.skip(*old(pos) + 1));
        }
        Some(
            if b == 0 {
                GameMode::Soccar
            } else if b == 1 {
                GameMode::Hoops
            } else if b == 2 {
                GameMode::Heatseeker
            } else if b == 3 {
                GameMode::Snowday
            } else {
                GameMode::TheVoid
            },
        )
    } else {
        None
    }
}

/// Reads a little-endian 32-bit integer at the cursor.
pub fn read_u32(s: &[u8], pos: &mut usize) -> (r: u32)
    requires
        *old(pos) + 4 <= s@.len(),
    ensures
        *final(pos) == *old(pos) + 4,
        spec_parse_u32(s@.skip(*old(pos) as int)) == Some((r, s@.skip(*old(pos) + 4))),
{
    let slen: usize = s.len();
    let sub = slice_subrange(s, *pos, *pos + 4);
    let r = u32_from_le_bytes(sub);
    proof {
        assert(sub@ =~= s@.skip(*pos as int).take(4));
        assert(s@.skip(*pos as int).skip(4) =~= s@.skip(*pos + 4));
    }
    *pos = *pos + 4;
    r
}

/// Reads a little-endian 64-bit integer at the cursor.
pub fn read_u64(s: &[u8], pos: &mut usize) -> (r: u64)
    requires
        *old(pos) + 8 <= s@.len(),
    ensures
        *final(pos) == *old(pos) + 8,
        spec_parse_u64(s@.skip(*old(pos) as int)) == Some((r, s@.skip(*old(pos) + 8))),
{
    let slen: usize = s.len();
    let sub = slice_subrange(s, *pos, *pos + 8);
    let r = u64_from_le_bytes(sub);
    proof {
        assert(sub@ =~= s@.skip(*pos as int).take(8));
        assert(s@.skip(*pos as int).skip(8) =~= s@.skip(*pos + 8));
    }
    *pos = *pos + 8;
    r
}

/// Reads a vector at the cursor.
pub fn read_vec3(s: &[u8], pos: &mut usize) -> (r: Vec3)
    requires
        *old(pos) + 12 <= s@.len(),
    ensures
        *final(pos) == *old(pos) + 12,
        spec_parse_vec3(s@.skip(*old(pos) as int)) == Some((r, s@.skip(*old(pos) + 12))),
{
    let x = read_u32(s, pos);
    let y = read_u32(s, pos);
    let z = read_u32(s, pos);
    Vec3 { x, y, z }
}

/// Reads a rotation matrix at the cursor.
pub fn read_rot_mat(s: &[u8], pos: &mut usize) -> (r: RotMat)
    requires
        *old(pos) + 36 <= s@.len(),
    ensures
        *final(pos) == *old(pos) + 36,
        spec_parse_rot_mat(s@.skip(*old(pos) as int)) == Some((r, s@.skip(*old(pos) + 36))),
{
    let forward = read_vec3(s, pos);
    let right = read_vec3(s, pos);
    let up = read_vec3(s, pos);
    RotMat { forward, right, up }
}

/// Reads a color at the cursor.
pub fn read_color(s: &[u8], pos: &mut usize) -> (c: Color)
    requires
        *old(pos) + 4 <= s@.len(),
    ensures
        *final(pos) == *old(pos) + 4,
        spec_parse_color(s@.skip(*old(pos) as int)) == Some((c, s@.skip(*old(pos) + 4))),
{
    let slen: usize = s.len();
    let r = *slice_index_get(s, *pos);
    let g = *slice_index_get(s, *pos + 1);
    let b = *slice_index_get(s, *pos + 2);
    let a = *slice_index_get(s, *pos + 3);
    proof {
        assert(s@.skip(*pos as int)[0] == s@[*pos as int]);
        assert(s@.skip(*pos as int)[1] == s@[*pos + 1]);
        assert(s@.skip(*pos as int)[2] == s@[*pos + 2]);
        assert(s@.skip(*pos as int)[3] == s@[*pos + 3]);
        assert(s@.skip(*pos as int).skip(4) =~= s@.skip(*pos + 4));
    }
    *pos = *pos + 4;
    Color { r, g, b, a }
}

// ---------------------------------------------------------------------------
// Composite serializers and parsers: the game structs
// ---------------------------------------------------------------------------

/// Driver controls on the wire: five scalar axes, then three flag bytes.
pub open spec fn spec_enc_controls(c: CarControls) -> Seq<u8> {
    spec_u32_to_le_bytes(c.throttle) + spec_u32_to_le_bytes(c.steer) + spec_u32_to_le_bytes(c.pitch)
        + spec_u32_to_le_bytes(c.yaw) + spec_u32_to_le_bytes(c.roll) + spec_enc_bool(c.boost)
        + spec_enc_bool(c.jump) + spec_enc_bool(c.handbrake)
}

pub open spec fn spec_parse_controls(s: Seq<u8>) -> Option<(CarControls, Seq<u8>)> {
    match spec_parse_u32(s) {
        None => None,
        Some((throttle, s)) => match spec_parse_u32(s) {
            None => None,
            Some((steer, s)) => match spec_parse_u32(s) {
                None => None,
                Some((pitch, s)) => match spec_parse_u32(s) {
                    None => None,
                    Some((yaw, s)) => match spec_parse_u32(s) {
                        None => None,
                        Some((roll, s)) => match spec_parse_bool(s) {
                            None => None,
                            Some((boost, s)) => match spec_parse_bool(s) {
                                None => None,
                                Some((jump, s)) => match spec_parse_bool(s) {
                                    None => None,
                                    Some((handbrake, s)) => Some((
                                        CarControls {
                                            throttle,
                                            steer,
                                            pitch,
                                            yaw,
                                            roll,
                                            boost,
                                            jump,
                                            handbrake,
                                        },
                                        s,
                                    )),
                                },
                            },
                        },
                    },
                },
            },
        },
    }
}

/// Wheel-contact flags on the wire: four flag bytes.
pub open spec fn spec_enc_wheels(w: WheelsWithContact) -> Seq<u8> {
    spec_enc_bool(w.front_left) + spec_enc_bool(w.front_right) + spec_enc_bool(w.back_left)
        + spec_enc_bool(w.back_right)
}

pub open spec fn spec_parse_wheels(s: Seq<u8>) -> Option<(WheelsWithContact, Seq<u8>)> {
    match spec_parse_bool(s) {
        None => None,
        Some((front_left, s)) => match spec_parse_bool(s) {
            None => None,
            Some((front_right, s)) => match spec_parse_bool(s) {
                None => None,
                Some((back_left, s)) => match spec_parse_bool(s) {
                    None => None,
                    Some((back_right, s)) => Some((
                        WheelsWithContact { front_left, front_right, back_left, back_right },
                        s,
                    )),
                },
            },
        },
    }
}

/// One axle pair on the wire: radius, suspension rest length, offset vector.
pub open spec fn spec_enc_wheel_pair(w: WheelPairConfig) -> Seq<u8> {
    spec_u32_to_le_bytes(w.wheel_radius) + spec_u32_to_le_bytes(w.suspension_rest_length)
        + spec_enc_vec3(w.connection_point_offset)
}

pub open spec fn spec_parse_wheel_pair(s: Seq<u8>) -> Option<(WheelPairConfig, Seq<u8>)> {
    match spec_parse_u32(s) {
        None => None,
        Some((wheel_radius, s)) => match spec_parse_u32(s) {
            None => None,
            Some((suspension_rest_length, s)) => match spec_parse_vec3(s) {
                None => None,
                Some((connection_point_offset, s)) => Some((
                    WheelPairConfig { wheel_radius, suspension_rest_length, connection_point_offset },
                    s,
                )),
            },
        },
    }
}

/// A car's static geometry on the wire: hitbox, then the two axle pairs.
pub open spec fn spec_enc_config(c: CarConfig) -> Seq<u8> {
    spec_enc_vec3(c.hitbox_size) + spec_enc_wheel_pair(c.front_wheels) + spec_enc_wheel_pair(
        c.back_wheels,
    )
}

pub open spec fn spec_parse_config(s: Seq<u8>) -> Option<(CarConfig, Seq<u8>)> {
    match spec_parse_vec3(s) {
        None => None,
        Some((hitbox_size, s)) => match spec_parse_wheel_pair(s) {
            None => None,
            Some((front_wheels, s)) => match spec_parse_wheel_pair(s) {
                None => None,
                Some((back_wheels, s)) => Some((
                    CarConfig { hitbox_size, front_wheels, back_wheels },
                    s,
                )),
            },
        },
    }
}

/// A car's dynamic state on the wire.
pub open spec fn spec_enc_car_state(c: CarState) -> Seq<u8> {
    spec_enc_vec3(c.pos) + spec_enc_vec3(c.vel) + spec_enc_vec3(c.ang_vel) + spec_enc_rot_mat(
        c.rot_mat,
    ) + spec_u32_to_le_bytes(c.boost) + spec_enc_bool(c.is_demoed) + spec_enc_bool(c.is_on_ground)
        + spec_enc_wheels(c.wheels_with_contact) + spec_enc_controls(c.last_controls)
}

pub open spec fn spec_parse_car_state(s: Seq<u8>) -> Option<(CarState, Seq<u8>)> {
    match spec_parse_vec3(s) {
        None => None,
        Some((pos, s)) => match spec_parse_vec3(s) {
            None => None,
            Some((vel, s)) => match spec_parse_vec3(s) {
                None => None,
                Some((ang_vel, s)) => match spec_parse_rot_mat(s) {
                    None => None,
                    Some((rot_mat, s)) => match spec_parse_u32(s) {
                        None => None,
                        Some((boost, s)) => match spec_parse_bool(s) {
                            None => None,
                            Some((is_demoed, s)) => match spec_parse_bool(s) {
                                None => None,
                                Some((is_on_ground, s)) => match spec_parse_wheels(s) {
                                    None => None,
                                    Some((wheels_with_contact, s)) => match spec_parse_controls(s) {
                                        None => None,
                                        Some((last_controls, s)) => Some((
                                            CarState {
                                                pos,
                                                vel,
                                                ang_vel,
                                                rot_mat,
                                                boost,
                                                is_demoed,
                                                is_on_ground,
                                                wheels_with_contact,
                                                last_controls,
                                            },
                                            s,
                                        )),
                                    },
                                },
                            },
                        },
                    },
                },
            },
        },
    }
}

/// One car on the wire: id, team, static config, dynamic state.
pub open spec fn spec_enc_car(c: CarInfo) -> Seq<u8> {
    spec_u32_to_le_bytes(c.id) + spec_enc_team(c.team) + spec_enc_config(c.config)
        + spec_enc_car_state(c.state)
}

pub open spec fn spec_parse_car(s: Seq<u8>) -> Option<(CarInfo, Seq<u8>)> {
    match spec_parse_u32(s) {
        None => None,
        Some((id, s)) => match spec_parse_team(s) {
            None => None,
            Some((team, s)) => match spec_parse_config(s) {
                None => None,
                Some((config, s)) => match spec_parse_car_state(s) {
                    None => None,
                    Some((state, s)) => Some((CarInfo { id, team, config, state }, s)),
                },
            },
        },
    }
}

/// The ball on the wire.
pub open spec fn spec_enc_ball(b: BallState) -> Seq<u8> {
    spec_enc_vec3(b.pos) + spec_enc_vec3(b.vel) + spec_enc_vec3(b.ang_vel) + spec_enc_rot_mat(
        b.rot_mat,
    )
}

pub open spec fn spec_parse_ball(s: Seq<u8>) -> Option<(BallState, Seq<u8>)> {
    match spec_parse_vec3(s) {
        None => None,
        Some((pos, s)) => match spec_parse_vec3(s) {
            None => None,
            Some((vel, s)) => match spec_parse_vec3(s) {
                None => None,
                Some((ang_vel, s)) => match spec_parse_rot_mat(s) {
                    None => None,
                    Some((rot_mat, s)) => Some((BallState { pos, vel, ang_vel, rot_mat }, s)),
                },
            },
        },
    }
}

/// One boost pad on the wire: position, size flag, active flag.
pub open spec fn spec_enc_pad(p: BoostPadState) -> Seq<u8> {
    spec_enc_vec3(p.position) + spec_enc_bool(p.is_big) + spec_enc_bool(p.is_active)
}

pub open spec fn spec_parse_pad(s: Seq<u8>) -> Option<(BoostPadState, Seq<u8>)> {
    match spec_parse_vec3(s) {
        None => None,
        Some((position, s)) => match spec_parse_bool(s) {
            None => None,
            Some((is_big, s)) => match spec_parse_bool(s) {
                None => None,
                Some((is_active, s)) => Some((BoostPadState { position, is_big, is_active }, s)),
            },
        },
    }
}

// ---------------------------------------------------------------------------
// Consumption lemmas: a successful parse consumes exactly its fixed size,
// and a too-short input cannot parse
// ---------------------------------------------------------------------------

/// A parsed vector consumes 12 bytes; fewer cannot parse.
pub proof fn lemma_parse_vec3_size(s: Seq<u8>)
    ensures
        spec_parse_vec3(s) is Some ==> s.len() >= 12 && (spec_parse_vec3(s)->0).1 == s.skip(12),
        s.len() < 12 ==> spec_parse_vec3(s) is None,
{
    broadcast use vstd::seq_lib::lemma_seq_skip_of_skip;

}

/// A parsed rotation matrix consumes 36 bytes; fewer cannot parse.
pub proof fn lemma_parse_rot_mat_size(s: Seq<u8>)
    ensures
        spec_parse_rot_mat(s) is Some ==> s.len() >= 36 && (spec_parse_rot_mat(s)->0).1 == s.skip(
            36,
        ),
        s.len() < 36 ==> spec_parse_rot_mat(s) is None,
{
    broadcast use vstd::seq_lib::lemma_seq_skip_of_skip;

    lemma_parse_vec3_size(s);
    if spec_parse_vec3(s) is Some {
        lemma_parse_vec3_size(s.skip(12));
        if spec_parse_vec3(s.skip(12)) is Some {
            lemma_parse_vec3_size(s.skip(24));
        }
    }
}

/// Parsed driver controls consume 23 bytes; fewer cannot parse.
pub proof fn lemma_parse_controls_size(s: Seq<u8>)
    ensures
        spec_parse_controls(s) is Some ==> s.len() >= 23 && (spec_parse_controls(s)->0).1
            == s.skip(23),
        s.len() < 23 ==> spec_parse_controls(s) is None,
{
    broadcast use vstd::seq_lib::lemma_seq_skip_of_skip;

}

/// Parsed wheel-contact flags consume 4 bytes; fewer cannot parse.
pub proof fn lemma_parse_wheels_size(s: Seq<u8>)
    ensures
        spec_parse_wheels(s) is Some ==> s.len() >= 4 && (spec_parse_wheels(s)->0).1 == s.skip(4),
        s.len() < 4 ==> spec_parse_wheels(s) is None,
{
    broadcast use vstd::seq_lib::lemma_seq_skip_of_skip;

}

/// A parsed axle pair consumes 20 bytes; fewer cannot parse.
pub proof fn lemma_parse_wheel_pair_size(s: Seq<u8>)
    ensures
        spec_parse_wheel_pair(s) is Some ==> s.len() >= 20 && (spec_parse_wheel_pair(s)->0).1
            == s.skip(20),
        s.len() < 20 ==> spec_parse_wheel_pair(s) is None,
{
    broadcast use vstd::seq_lib::lemma_seq_skip_of_skip;

    lemma_parse_vec3_size(s.skip(8));
}

/// A parsed car config consumes 52 bytes; fewer cannot parse.
pub proof fn lemma_parse_config_size(s: Seq<u8>)
    ensures
        spec_parse_config(s) is Some ==> s.len() >= 52 && (spec_parse_config(s)->0).1 == s.skip(
            52,
        ),
        s.len() < 52 ==> spec_parse_config(s) is None,
{
    broadcast use vstd::seq_lib::lemma_seq_skip_of_skip;

    lemma_parse_vec3_size(s);
    if spec_parse_vec3(s) is Some {
        lemma_parse_wheel_pair_size(s.skip(12));
        if spec_parse_wheel_pair(s.skip(12)) is Some {
            lemma_parse_wheel_pair_size(s.skip(32));
        }
    }
}

/// A parsed car state consumes 105 bytes; fewer cannot parse.
pub proof fn lemma_parse_car_state_size(s: Seq<u8>)
    ensures
        spec_parse_car_state(s) is Some ==> s.len() >= 105 && (spec_parse_car_state(s)->0).1
            == s.skip(105),
        s.len() < 105 ==> spec_parse_car_state(s) is None,
{
    broadcast use vstd::seq_lib::lemma_seq_skip_of_skip;

    lemma_parse_vec3_size(s);
    if spec_parse_vec3(s) is Some {
        lemma_parse_vec3_size(s.skip(12));
        if spec_parse_vec3(s.skip(12)) is Some {
            lemma_parse_vec3_size(s.skip(24));
            if spec_parse_vec3(s.skip(24)) is Some {
                lemma_parse_rot_mat_size(s.skip(36));
                if spec_parse_rot_mat(s.skip(36)) is Some {
                    lemma_parse_wheels_size(s.skip(78));
                    if spec_parse_wheels(s.skip(78)) is Some {
                        lemma_parse_controls_size(s.skip(82));
                    }
                }
            }
        }
    }
}

/// A parsed car consumes 162 bytes; fewer cannot parse.
pub proof fn lemma_parse_car_size(s: Seq<u8>)
    ensures
        spec_parse_car(s) is Some ==> s.len() >= 162 && (spec_parse_car(s)->0).1 == s.skip(162),
        s.len() < 162 ==> spec_parse_car(s) is None,
{
    broadcast use vstd::seq_lib::lemma_seq_skip_of_skip;

    if s.len() >= 5 {
        lemma_parse_config_size(s.skip(5));
        if spec_parse_config(s.skip(5)) is Some {
            lemma_parse_car_state_size(s.skip(57));
        }
    }
}

/// A parsed ball consumes 72 bytes; fewer cannot parse.
pub proof fn lemma_parse_ball_size(s: Seq<u8>)
    ensures
        spec_parse_ball(s) is Some ==> s.len() >= 72 && (spec_parse_ball(s)->0).1 == s.skip(72),
        s.len() < 72 ==> spec_parse_ball(s) is None,
{
    broadcast use vstd::seq_lib::lemma_seq_skip_of_skip;

    lemma_parse_vec3_size(s);
    if spec_parse_vec3(s) is Some {
        lemma_parse_vec3_size(s.skip(12));
        if spec_parse_vec3(s.skip(12)) is Some {
            lemma_parse_vec3_size(s.skip(24));
            if spec_parse_vec3(s.skip(24)) is Some {
                lemma_parse_rot_mat_size(s.skip(36));
            }
        }
    }
}

/// A parsed boost pad consumes 14 bytes; fewer cannot parse.
pub proof fn lemma_parse_pad_size(s: Seq<u8>)
    ensures
        spec_parse_pad(s) is Some ==> s.len() >= 14 && (spec_parse_pad(s)->0).1 == s.skip(14),
        s.len() < 14 ==> spec_parse_pad(s) is None,
{
    broadcast use vstd::seq_lib::lemma_seq_skip_of_skip;

    lemma_parse_vec3_size(s);
}

// ---------------------------------------------------------------------------
// Inverse lemmas for the game structs
// ---------------------------------------------------------------------------

/// Parsing an encoded axle pair yields it back.
pub proof fn lemma_parse_enc_wheel_pair(w: WheelPairConfig, rest: Seq<u8>)
    ensures
        spec_parse_wheel_pair(spec_enc_wheel_pair(w) + rest) == Some((w, rest)),
{
    assert(spec_enc_wheel_pair(w) + rest =~= spec_u32_to_le_bytes(w.wheel_radius) + (
    spec_u32_to_le_bytes(w.suspension_rest_length) + (spec_enc_vec3(w.connection_point_offset)
        + rest)));
    lemma_parse_enc_u32(w.wheel_radius, spec_u32_to_le_bytes(w.suspension_rest_length) + (
    spec_enc_vec3(w.connection_point_offset) + rest));
    lemma_parse_enc_u32(w.suspension_rest_length, spec_enc_vec3(w.connection_point_offset) + rest);
    lemma_parse_enc_vec3(w.connection_point_offset, rest);
}

/// Parsing an encoded car config yields it back.
pub proof fn lemma_parse_enc_config(c: CarConfig, rest: Seq<u8>)
    ensures
        spec_parse_config(spec_enc_config(c) + rest) == Some((c, rest)),
{
    assert(spec_enc_config(c) + rest =~= spec_enc_vec3(c.hitbox_size) + (spec_enc_wheel_pair(
        c.front_wheels,
    ) + (spec_enc_wheel_pair(c.back_wheels) + rest)));
    lemma_parse_enc_vec3(c.hitbox_size, spec_enc_wheel_pair(c.front_wheels) + (
    spec_enc_wheel_pair(c.back_wheels) + rest));
    lemma_parse_enc_wheel_pair(c.front_wheels, spec_enc_wheel_pair(c.back_wheels) + rest);
    lemma_parse_enc_wheel_pair(c.back_wheels, rest);
}

/// Parsing encoded wheel-contact flags yields them back.
pub proof fn lemma_parse_enc_wheels(w: WheelsWithContact, rest: Seq<u8>)
    ensures
        spec_parse_wheels(spec_enc_wheels(w) + rest) == Some((w, rest)),
{
    assert(spec_enc_wheels(w) + rest =~= spec_enc_bool(w.front_left) + (spec_enc_bool(
        w.front_right,
    ) + (spec_enc_bool(w.back_left) + (spec_enc_bool(w.back_right) + rest))));
    lemma_parse_enc_bool(w.front_left, spec_enc_bool(w.front_right) + (spec_enc_bool(w.back_left)
        + (spec_enc_bool(w.back_right) + rest)));
    lemma_parse_enc_bool(w.front_right, spec_enc_bool(w.back_left) + (spec_enc_bool(w.back_right)
        + rest));
    lemma_parse_enc_bool(w.back_left, spec_enc_bool(w.back_right) + rest);
    lemma_parse_enc_bool(w.back_right, rest);
}

/// Parsing encoded driver controls yields them back.
#[verifier::rlimit(60)]
pub proof fn lemma_parse_enc_controls(c: CarControls, rest: Seq<u8>)
    ensures
        spec_parse_controls(spec_enc_controls(c) + rest) == Some((c, rest)),
{
    let r7 = spec_enc_bool(c.handbrake) + rest;
    let r6 = spec_enc_bool(c.jump) + r7;
    let r5 = spec_enc_bool(c.boost) + r6;
    let r4 = spec_u32_to_le_bytes(c.roll) + r5;
    let r3 = spec_u32_to_le_bytes(c.yaw) + r4;
    let r2 = spec_u32_to_le_bytes(c.pitch) + r3;
    let r1 = spec_u32_to_le_bytes(c.steer) + r2;
    assert(spec_enc_controls(c) + rest =~= spec_u32_to_le_bytes(c.throttle) + r1);
    lemma_parse_enc_u32(c.throttle, r1);
    lemma_parse_enc_u32(c.steer, r2);
    lemma_parse_enc_u32(c.pitch, r3);
    lemma_parse_enc_u32(c.yaw, r4);
    lemma_parse_enc_u32(c.roll, r5);
    lemma_parse_enc_bool(c.boost, r6);
    lemma_parse_enc_bool(c.jump, r7);
    lemma_parse_enc_bool(c.handbrake, rest);
}

/// Parsing an encoded car state yields it back.
#[verifier::spinoff_prover]
#[verifier::rlimit(100)]
pub proof fn lemma_parse_enc_car_state(c: CarState, rest: Seq<u8>)
    ensures
        spec_parse_car_state(spec_enc_car_state(c) + rest) == Some((c, rest)),
{
    let r8 = spec_enc_controls(c.last_controls) + rest;
    let r7 = spec_enc_wheels(c.wheels_with_contact) + r8;
    let r6 = spec_enc_bool(c.is_on_ground) + r7;
    let r5 = spec_enc_bool(c.is_demoed) + r6;
    let r4 = spec_u32_to_le_bytes(c.boost) + r5;
    let r3 = spec_enc_rot_mat(c.rot_mat) + r4;
    let r2 = spec_enc_vec3(c.ang_vel) + r3;
    let r1 = spec_enc_vec3(c.vel) + r2;
    assert(spec_enc_car_state(c) + rest =~= spec_enc_vec3(c.pos) + r1);
    lemma_parse_enc_vec3(c.pos, r1);
    lemma_parse_enc_vec3(c.vel, r2);
    lemma_parse_enc_vec3(c.ang_vel, r3);
    lemma_parse_enc_rot_mat(c.rot_mat, r4);
    lemma_parse_enc_u32(c.boost, r5);
    lemma_parse_enc_bool(c.is_demoed, r6);
    lemma_parse_enc_bool(c.is_on_ground, r7);
    lemma_parse_enc_wheels(c.wheels_with_contact, r8);
    lemma_parse_enc_controls(c.last_controls, rest);
}

/// Parsing an encoded car yields it back.
pub proof fn lemma_parse_enc_car(c: CarInfo, rest: Seq<u8>)
    ensures
        spec_parse_car(spec_enc_car(c) + rest) == Some((c, rest)),
{
    let r3 = spec_enc_car_state(c.state) + rest;
    let r2 = spec_enc_config(c.config) + r3;
    let r1 = spec_enc_team(c.team) + r2;
    assert(spec_enc_car(c) + rest =~= spec_u32_to_le_bytes(c.id) + r1);
    lemma_parse_enc_u32(c.id, r1);
    lemma_parse_enc_team(c.team, r2);
    lemma_parse_enc_config(c.config, r3);
    lemma_parse_enc_car_state(c.state, rest);
}

/// Parsing an encoded ball yields it back.
pub proof fn lemma_parse_enc_ball(b: BallState, rest: Seq<u8>)
    ensures
        spec_parse_ball(spec_enc_ball(b) + rest) == Some((b, rest)),
{
    let r3 = spec_enc_rot_mat(b.rot_mat) + rest;
    let r2 = spec_enc_vec3(b.ang_vel) + r3;
    let r1 = spec_enc_vec3(b.vel) + r2;
    assert(spec_enc_ball(b) + rest =~= spec_enc_vec3(b.pos) + r1);
    lemma_parse_enc_vec3(b.pos, r1);
    lemma_parse_enc_vec3(b.vel, r2);
    lemma_parse_enc_vec3(b.ang_vel, r3);
    lemma_parse_enc_rot_mat(b.rot_mat, rest);
}

/// Parsing an encoded boost pad yields it back.
pub proof fn lemma_parse_enc_pad(p: BoostPadState, rest: Seq<u8>)
    ensures
        spec_parse_pad(spec_enc_pad(p) + rest) == Some((p, rest)),
{
    let r2 = spec_enc_bool(p.is_active) + rest;
    let r1 = spec_enc_bool(p.is_big) + r2;
    assert(spec_enc_pad(p) + rest =~= spec_enc_vec3(p.position) + r1);
    lemma_parse_enc_vec3(p.position, r1);
    lemma_parse_enc_bool(p.is_big, r2);
    lemma_parse_enc_bool(p.is_active, rest);
}

// ---------------------------------------------------------------------------
// Executable writers for the game structs
// ---------------------------------------------------------------------------

/// Appends encoded driver controls.
pub fn put_controls(out: &mut Vec<u8>, c: CarControls)
    ensures
        final(out)@ == old(out)@ + spec_enc_controls(c),
{
    put_u32(out, c.throttle);
    put_u32(out, c.steer);
    put_u32(out, c.pitch);
    put_u32(out, c.yaw);
    put_u32(out, c.roll);
    put_bool(out, c.boost);
    put_bool(out, c.jump);
    put_bool(out, c.handbrake);
    assert(out@ =~= old(out)@ + spec_enc_controls(c));
}

/// Appends encoded wheel-contact flags.
pub fn put_wheels(out: &mut Vec<u8>, w: WheelsWithContact)
    ensures
        final(out)@ == old(out)@ + spec_enc_wheels(w),
{
    put_bool(out, w.front_left);
    put_bool(out, w.front_right);
    put_bool(out, w.back_left);
    put_bool(out, w.back_right);
    assert(out@ =~= old(out)@ + spec_enc_wheels(w));
}

/// Appends an encoded axle pair.
pub fn put_wheel_pair(out: &mut Vec<u8>, w: WheelPairConfig)
    ensures
        final(out)@ == old(out)@ + spec_enc_wheel_pair(w),
{
    put_u32(out, w.wheel_radius);
    put_u32(out, w.suspension_rest_length);
    put_vec3(out, w.connection_point_offset);
    assert(out@ =~= old(out)@ + spec_enc_wheel_pair(w));
}

/// Appends an encoded car config.
pub fn put_config(out: &mut Vec<u8>, c: CarConfig)
    ensures
        final(out)@ == old(out)@ + spec_enc_config(c),
{
    put_vec3(out, c.hitbox_size);
    put_wheel_pair(out, c.front_wheels);
    put_wheel_pair(out, c.back_wheels);
    assert(out@ =~= old(out)@ + spec_enc_config(c));
}

/// Appends an encoded car state.
pub fn put_car_state(out: &mut Vec<u8>, c: CarState)
    ensures
        final(out)@ == old(out)@ + spec_enc_car_state(c),
{
    put_vec3(out, c.pos);
    put_vec3(out, c.vel);
    put_vec3(out, c.ang_vel);
    put_rot_mat(out, c.rot_mat);
    put_u32(out, c.boost);
    put_bool(out, c.is_demoed);
    put_bool(out, c.is_on_ground);
    put_wheels(out, c.wheels_with_contact);
    put_controls(out, c.last_controls);
    assert(out@ =~= old(out)@ + spec_enc_car_state(c));
}

/// Appends an encoded car.
pub fn put_car(out: &mut Vec<u8>, c: CarInfo)
    ensures
        final(out)@ == old(out)@ + spec_enc_car(c),
{
    put_u32(out, c.id);
    put_team(out, c.team);
    put_config(out, c.config);
    put_car_state(out, c.state);
    assert(out@ =~= old(out)@ + spec_enc_car(c));
}

/// Appends an encoded ball.
pub fn put_ball(out: &mut Vec<u8>, b: BallState)
    ensures
        final(out)@ == old(out)@ + spec_enc_ball(b),
{
    put_vec3(out, b.pos);
    put_vec3(out, b.vel);
    put_vec3(out, b.ang_vel);
    put_rot_mat(out, b.rot_mat);
    assert(out@ =~= old(out)@ + spec_enc_ball(b));
}

/// Appends an encoded boost pad.
pub fn put_pad(out: &mut Vec<u8>, p: BoostPadState)
    ensures
        final(out)@ == old(out)@ + spec_enc_pad(p),
{
    put_vec3(out, p.position);
    put_bool(out, p.is_big);
    put_bool(out, p.is_active);
    assert(out@ =~= old(out)@ + spec_enc_pad(p));
}

// ---------------------------------------------------------------------------
// Executable readers for the game structs
// ---------------------------------------------------------------------------

/// Reads driver controls at the cursor.
pub fn read_controls(s: &[u8], pos: &mut usize) -> (r: Option<CarControls>)
    requires
        *old(pos) + 23 <= s@.len(),
    ensures
        match r {
            Some(v) => {
                &&& *final(pos) == *old(pos) + 23
                &&& spec_parse_controls(s@.skip(*old(pos) as int)) == Some((
                    v,
                    s@.skip(*old(pos) + 23),
                ))
            },
            None => spec_parse_controls(s@.skip(*old(pos) as int)) is None,
        },
{
    let throttle = read_u32(s, pos);
    let steer = read_u32(s, pos);
    let pitch = read_u32(s, pos);
    let yaw = read_u32(s, pos);
    let roll = read_u32(s, pos);
    let boost = match read_bool(s, pos) {
        Some(b) => b,
        None => {
            return None;
        },
    };
    let jump = match read_bool(s, pos) {
        Some(b) => b,
        None => {
            return None;
        },
    };
    let handbrake = match read_bool(s, pos) {
        Some(b) => b,
        None => {
            return None;
        },
    };
    Some(CarControls { throttle, steer, pitch, yaw, roll, boost, jump, handbrake })
}

/// Reads wheel-contact flags at the cursor.
pub fn read_wheels(s: &[u8], pos: &mut usize) -> (r: Option<WheelsWithContact>)
    requires
        *old(pos) + 4 <= s@.len(),
    ensures
        match r {
            Some(v) => {
                &&& *final(pos) == *old(pos) + 4
                &&& spec_parse_wheels(s@.skip(*old(pos) as int)) == Some((
                    v,
                    s@.skip(*old(pos) + 4),
                ))
            },
            None => spec_parse_wheels(s@.skip(*old(pos) as int)) is None,
        },
{
    let front_left = match read_bool(s, pos) {
        Some(b) => b,
        None => {
            return None;
        },
    };
    let front_right = match read_bool(s, pos) {
        Some(b) => b,
        None => {
            return None;
        },
    };
    let back_left = match read_bool(s, pos) {
        Some(b) => b,
        None => {
            return None;
        },
    };
    let back_right = match read_bool(s, pos) {
        Some(b) => b,
        None => {
            return None;
        },
    };
    Some(WheelsWithContact { front_left, front_right, back_left, back_right })
}

/// Reads an axle pair at the cursor.
pub fn read_wheel_pair(s: &[u8], pos: &mut usize) -> (r: WheelPairConfig)
    requires
        *old(pos) + 20 <= s@.len(),
    ensures
        *final(pos) == *old(pos) + 20,
        spec_parse_wheel_pair(s@.skip(*old(pos) as int)) == Some((r, s@.skip(*old(pos) + 20))),
{
    let wheel_radius = read_u32(s, pos);
    let suspension_rest_length = read_u32(s, pos);
    let connection_point_offset = read_vec3(s, pos);
    WheelPairConfig { wheel_radius, suspension_rest_length, connection_point_offset }
}

/// Reads a car config at the cursor.
pub fn read_config(s: &[u8], pos: &mut usize) -> (r: CarConfig)
    requires
        *old(pos) + 52 <= s@.len(),
    ensures
        *final(pos) == *old(pos) + 52,
        spec_parse_config(s@.skip(*old(pos) as int)) == Some((r, s@.skip(*old(pos) + 52))),
{
    let hitbox_size = read_vec3(s, pos);
    let front_wheels = read_wheel_pair(s, pos);
    let back_wheels = read_wheel_pair(s, pos);
    CarConfig { hitbox_size, front_wheels, back_wheels }
}

/// Reads a car state at the cursor.
#[verifier::spinoff_prover]
#[verifier::rlimit(100)]
pub fn read_car_state(s: &[u8], pos: &mut usize) -> (r: Option<CarState>)
    requires
        *old(pos) + 105 <= s@.len(),
    ensures
        match r {
            Some(v) => {
                &&& *final(pos) == *old(pos) + 105
                &&& spec_parse_car_state(s@.skip(*old(pos) as int)) == Some((
                    v,
                    s@.skip(*old(pos) + 105),
                ))
            },
            None => spec_parse_car_state(s@.skip(*old(pos) as int)) is None,
        },
{
    let pos0 = read_vec3(s, pos);
    let vel = read_vec3(s, pos);
    let ang_vel = read_vec3(s, pos);
    let rot_mat = read_rot_mat(s, pos);
    let boost = read_u32(s, pos);
    let is_demoed = match read_bool(s, pos) {
        Some(b) => b,
        None => {
            return None;
        },
    };
    let is_on_ground = match read_bool(s, pos) {
        Some(b) => b,
        None => {
            return None;
        },
    };
    let wheels_with_contact = match read_wheels(s, pos) {
        Some(w) => w,
        None => {
            return None;
        },
    };
    let last_controls = match read_controls(s, pos) {
        Some(c) => c,
        None => {
            return None;
        },
    };
    Some(
        CarState {
            pos: pos0,
            vel,
            ang_vel,
            rot_mat,
            boost,
            is_demoed,
            is_on_ground,
            wheels_with_contact,
            last_controls,
        },
    )
}

/// Reads one car at the cursor.
#[verifier::spinoff_prover]
#[verifier::rlimit(100)]
pub fn read_car(s: &[u8], pos: &mut usize) -> (r: Option<CarInfo>)
    requires
        *old(pos) + 162 <= s@.len(),
    ensures
        match r {
            Some(v) => {
                &&& *final(pos) == *old(pos) + 162
                &&& spec_parse_car(s@.skip(*old(pos) as int)) == Some((
                    v,
                    s@.skip(*old(pos) + 162),
                ))
            },
            None => spec_parse_car(s@.skip(*old(pos) as int)) is None,
        },
{
    let id = read_u32(s, pos);
    let team = match read_team(s, pos) {
        Some(t) => t,
        None => {
            return None;
        },
    };
    let config = read_config(s, pos);
    let state = match read_car_state(s, pos) {
        Some(v) => v,
        None => {
            return None;
        },
    };
    Some(CarInfo { id, team, config, state })
}

/// Reads the ball at the cursor.
pub fn read_ball(s: &[u8], pos: &mut usize) -> (r: BallState)
    requires
        *old(pos) + 72 <= s@.len(),
    ensures
        *final(pos) == *old(pos) + 72,
        spec_parse_ball(s@.skip(*old(pos) as int)) == Some((r, s@.skip(*old(pos) + 72))),
{
    let pos0 = read_vec3(s, pos);
    let vel = read_vec3(s, pos);
    let ang_vel = read_vec3(s, pos);
    let rot_mat = read_rot_mat(s, pos);
    BallState { pos: pos0, vel, ang_vel, rot_mat }
}

/// Reads one boost pad at the cursor.
pub fn read_pad(s: &[u8], pos: &mut usize) -> (r: Option<BoostPadState>)
    requires
        *old(pos) + 14 <= s@.len(),
    ensures
        match r {
            Some(v) => {
                &&& *final(pos) == *old(pos) + 14
                &&& spec_parse_pad(s@.skip(*old(pos) as int)) == Some((
                    v,
                    s@.skip(*old(pos) + 14),
                ))
            },
            None => spec_parse_pad(s@.skip(*old(pos) as int)) is None,
        },
{
    let position = read_vec3(s, pos);
    let is_big = match read_bool(s, pos) {
        Some(b) => b,
        None => {
            return None;
        },
    };
    let is_active = match read_bool(s, pos) {
        Some(b) => b,
        None => {
            return None;
        },
    };
    Some(BoostPadState { position, is_big, is_active })
}

// ---------------------------------------------------------------------------
// Car and pad lists
// ---------------------------------------------------------------------------

/// A car list on the wire: each car in order, no separators.
pub open spec fn spec_enc_cars(cars: Seq<CarInfo>) -> Seq<u8>
    decreases cars.len(),
{
    if cars.len() == 0 {
        Seq::empty()
    } else {
        spec_enc_car(cars[0]) + spec_enc_cars(cars.skip(1))
    }
}

/// Parses exactly `n` cars.
pub open spec fn spec_parse_cars(n: nat, s: Seq<u8>) -> Option<(Seq<CarInfo>, Seq<u8>)>
    decreases n,
{
    if n == 0 {
        Some((Seq::empty(), s))
    } else {
        match spec_parse_car(s) {
            None => None,
            Some((c, s2)) => match spec_parse_cars((n - 1) as nat, s2) {
                None => None,
                Some((cs, s3)) => Some((seq![c] + cs, s3)),
            },
        }
    }
}

/// A pad list on the wire: each pad in order, no separators.
pub open spec fn spec_enc_pads(pads: Seq<BoostPadState>) -> Seq<u8>
    decreases pads.len(),
{
    if pads.len() == 0 {
        Seq::empty()
    } else {
        spec_enc_pad(pads[0]) + spec_enc_pads(pads.skip(1))
    }
}

/// Parses exactly `n` boost pads.
pub open spec fn spec_parse_pads(n: nat, s: Seq<u8>) -> Option<(Seq<BoostPadState>, Seq<u8>)>
    decreases n,
{
    if n == 0 {
        Some((Seq::empty(), s))
    } else {
        match spec_parse_pad(s) {
            None => None,
            Some((p, s2)) => match spec_parse_pads((n - 1) as nat, s2) {
                None => None,
                Some((ps, s3)) => Some((seq![p] + ps, s3)),
            },
        }
    }
}

/// Parsing an encoded car list yields it back.
#[verifier::spinoff_prover]
#[verifier::rlimit(100)]
pub proof fn lemma_parse_enc_cars(cars: Seq<CarInfo>, rest: Seq<u8>)
    ensures
        spec_parse_cars(cars.len(), spec_enc_cars(cars) + rest) == Some((cars, rest)),
    decreases cars.len(),
{
    if cars.len() == 0 {
        assert(spec_enc_cars(cars) + rest =~= rest);
        assert(Seq::<CarInfo>::empty() =~= cars);
    } else {
        let tail_enc = spec_enc_cars(cars.skip(1)) + rest;
        assert(spec_enc_cars(cars) + rest =~= spec_enc_car(cars[0]) + tail_enc);
        lemma_parse_enc_car(cars[0], tail_enc);
        lemma_parse_enc_cars(cars.skip(1), rest);
        assert(seq![cars[0]] + cars.skip(1) =~= cars);
    }
}

/// Parsing an encoded pad list yields it back.
#[verifier::spinoff_prover]
#[verifier::rlimit(100)]
pub proof fn lemma_parse_enc_pads(pads: Seq<BoostPadState>, rest: Seq<u8>)
    ensures
        spec_parse_pads(pads.len(), spec_enc_pads(pads) + rest) == Some((pads, rest)),
    decreases pads.len(),
{
    if pads.len() == 0 {
        assert(spec_enc_pads(pads) + rest =~= rest);
        assert(Seq::<BoostPadState>::empty() =~= pads);
    } else {
        let tail_enc = spec_enc_pads(pads.skip(1)) + rest;
        assert(spec_enc_pads(pads) + rest =~= spec_enc_pad(pads[0]) + tail_enc);
        lemma_parse_enc_pad(pads[0], tail_enc);
        lemma_parse_enc_pads(pads.skip(1), rest);
        assert(seq![pads[0]] + pads.skip(1) =~= pads);
    }
}

/// Encoding a car list is encoding all but the last car, then the last.
pub proof fn lemma_enc_cars_snoc(cars: Seq<CarInfo>)
    requires
        cars.len() > 0,
    ensures
        spec_enc_cars(cars) == spec_enc_cars(cars.drop_last()) + spec_enc_car(cars.last()),
    decreases cars.len(),
{
    if cars.len() == 1 {
        assert(cars.drop_last() =~= Seq::<CarInfo>::empty());
        assert(cars.skip(1) =~= Seq::<CarInfo>::empty());
        assert(spec_enc_cars(Seq::<CarInfo>::empty()) == Seq::<u8>::empty());
        assert(spec_enc_cars(cars) =~= spec_enc_cars(cars.drop_last()) + spec_enc_car(cars.last()));
    } else {
        let tail = cars.skip(1);
        let dl = cars.drop_last();
        lemma_enc_cars_snoc(tail);
        assert(tail.drop_last() =~= dl.skip(1));
        assert(dl.len() > 0);
        assert(dl[0] == cars[0]);
        assert(tail.last() == cars.last());
        assert(spec_enc_cars(cars) == spec_enc_car(cars[0]) + spec_enc_cars(tail));
        assert(spec_enc_cars(dl) == spec_enc_car(dl[0]) + spec_enc_cars(dl.skip(1)));
        assert(spec_enc_cars(cars) =~= spec_enc_cars(dl) + spec_enc_car(cars.last()));
    }
}

/// Encoding a pad list is encoding all but the last pad, then the last.
pub proof fn lemma_enc_pads_snoc(pads: Seq<BoostPadState>)
    requires
        pads.len() > 0,
    ensures
        spec_enc_pads(pads) == spec_enc_pads(pads.drop_last()) + spec_enc_pad(pads.last()),
    decreases pads.len(),
{
    if pads.len() == 1 {
        assert(pads.drop_last() =~= Seq::<BoostPadState>::empty());
        assert(pads.skip(1) =~= Seq::<BoostPadState>::empty());
        assert(spec_enc_pads(Seq::<BoostPadState>::empty()) == Seq::<u8>::empty());
        assert(spec_enc_pads(pads) =~= spec_enc_pads(pads.drop_last()) + spec_enc_pad(pads.last()));
    } else {
        let tail = pads.skip(1);
        let dl = pads.drop_last();
        lemma_enc_pads_snoc(tail);
        assert(tail.drop_last() =~= dl.skip(1));
        assert(dl.len() > 0);
        assert(dl[0] == pads[0]);
        assert(tail.last() == pads.last());
        assert(spec_enc_pads(pads) == spec_enc_pad(pads[0]) + spec_enc_pads(tail));
        assert(spec_enc_pads(dl) == spec_enc_pad(dl[0]) + spec_enc_pads(dl.skip(1)));
        assert(spec_enc_pads(pads) =~= spec_enc_pads(dl) + spec_enc_pad(pads.last()));
    }
}

/// An encoded car list is 162 bytes per car.
pub proof fn lemma_enc_cars_len(cars: Seq<CarInfo>)
    ensures
        spec_enc_cars(cars).len() == cars.len() * 162,
    decreases cars.len(),
{
    lemma_auto_spec_u32_to_from_le_bytes();
    if cars.len() == 0 {
        assert(spec_enc_cars(cars) == Seq::<u8>::empty());
    } else {
        lemma_enc_cars_len(cars.skip(1));
        assert(spec_enc_cars(cars) == spec_enc_car(cars[0]) + spec_enc_cars(cars.skip(1)));
        assert(spec_enc_car(cars[0]).len() == 162);
    }
}

/// An encoded pad list is 14 bytes per pad.
pub proof fn lemma_enc_pads_len(pads: Seq<BoostPadState>)
    ensures
        spec_enc_pads(pads).len() == pads.len() * 14,
    decreases pads.len(),
{
    lemma_auto_spec_u32_to_from_le_bytes();
    if pads.len() == 0 {
        assert(spec_enc_pads(pads) == Seq::<u8>::empty());
    } else {
        lemma_enc_pads_len(pads.skip(1));
        assert(spec_enc_pads(pads) == spec_enc_pad(pads[0]) + spec_enc_pads(pads.skip(1)));
        assert(spec_enc_pad(pads[0]).len() == 14);
    }
}

/// Reads `n` cars at the cursor.
#[verifier::loop_isolation(false)]
#[verifier::spinoff_prover]
#[verifier::rlimit(100)]
pub fn read_cars(s: &[u8], pos: &mut usize, n: u32) -> (r: Option<Vec<CarInfo>>)
    requires
        *old(pos) <= s@.len(),
    ensures
        match r {
            Some(v) => {
                &&& *old(pos) <= *final(pos) <= s@.len()
                &&& spec_parse_cars(n as nat, s@.skip(*old(pos) as int)) == Some((
                    v@,
                    s@.skip(*final(pos) as int),
                ))
            },
            None => spec_parse_cars(n as nat, s@.skip(*old(pos) as int)) is None,
        },
{
    let slen: usize = s.len();
    let ghost pos0 = *pos;
    let mut acc: Vec<CarInfo> = Vec::new();
    let mut i: u32 = 0;
    proof {
        match spec_parse_cars(n as nat, s@.skip(pos0 as int)) {
            Some((cs, rr)) => {
                assert(Seq::<CarInfo>::empty() + cs =~= cs);
            },
            None => {},
        }
    }
    while i < n
        invariant
            i <= n,
            acc@.len() == i as nat,
            pos0 <= *pos <= slen,
            spec_parse_cars(n as nat, s@.skip(pos0 as int)) == (match spec_parse_cars(
                (n - i) as nat,
                s@.skip(*pos as int),
            ) {
                None => None::<(Seq<CarInfo>, Seq<u8>)>,
                Some((cs, rr)) => Some((acc@ + cs, rr)),
            }),
        decreases n - i,
    {
        if slen - *pos < 162 {
            proof {
                lemma_parse_car_size(s@.skip(*pos as int));
            }
            return None;
        }
        let c = match read_car(s, pos) {
            Some(c) => c,
            None => {
                return None;
            },
        };
        acc.push(c);
        i = i + 1;
        proof {
            match spec_parse_cars((n - i) as nat, s@.skip(*pos as int)) {
                Some((cs, rr)) => {
                    assert(acc@ + cs =~= acc@.drop_last() + (seq![c] + cs));
                },
                None => {},
            }
        }
    }
    proof {
        assert(acc@ + Seq::<CarInfo>::empty() =~= acc@);
    }
    Some(acc)
}

/// Reads `n` boost pads at the cursor.
#[verifier::loop_isolation(false)]
#[verifier::spinoff_prover]
#[verifier::rlimit(100)]
pub fn read_pads(s: &[u8], pos: &mut usize, n: u32) -> (r: Option<Vec<BoostPadState>>)
    requires
        *old(pos) <= s@.len(),
    ensures
        match r {
            Some(v) => {
                &&& *old(pos) <= *final(pos) <= s@.len()
                &&& spec_parse_pads(n as nat, s@.skip(*old(pos) as int)) == Some((
                    v@,
                    s@.skip(*final(pos) as int),
                ))
            },
            None => spec_parse_pads(n as nat, s@.skip(*old(pos) as int)) is None,
        },
{
    let slen: usize = s.len();
    let ghost pos0 = *pos;
    let mut acc: Vec<BoostPadState> = Vec::new();
    let mut i: u32 = 0;
    proof {
        match spec_parse_pads(n as nat, s@.skip(pos0 as int)) {
            Some((ps, rr)) => {
                assert(Seq::<BoostPadState>::empty() + ps =~= ps);
            },
            None => {},
        }
    }
    while i < n
        invariant
            i <= n,
            acc@.len() == i as nat,
            pos0 <= *pos <= slen,
            spec_parse_pads(n as nat, s@.skip(pos0 as int)) == (match spec_parse_pads(
                (n - i) as nat,
                s@.skip(*pos as int),
            ) {
                None => None::<(Seq<BoostPadState>, Seq<u8>)>,
                Some((ps, rr)) => Some((acc@ + ps, rr)),
            }),
        decreases n - i,
    {
        if slen - *pos < 14 {
            proof {
                lemma_parse_pad_size(s@.skip(*pos as int));
            }
            return None;
        }
        let p = match read_pad(s, pos) {
            Some(p) => p,
            None => {
                return None;
            },
        };
        acc.push(p);
        i = i + 1;
        proof {
            match spec_parse_pads((n - i) as nat, s@.skip(*pos as int)) {
                Some((ps, rr)) => {
                    assert(acc@ + ps =~= acc@.drop_last() + (seq![p] + ps));
                },
                None => {},
            }
        }
    }
    proof {
        assert(acc@ + Seq::<BoostPadState>::empty() =~= acc@);
    }
    Some(acc)
}

// ---------------------------------------------------------------------------
// The full snapshot
// ---------------------------------------------------------------------------

/// The fixed-size prefix of an encoded snapshot: tick count, tick rate, game
/// mode, car count, pad count. Peeking this many bytes is always enough to
/// compute the exact payload length.
pub const GAME_STATE_MIN_NUM_BYTES: usize = 21;

/// Bytes of an encoded ball.
pub const BALL_NUM_BYTES: usize = 72;

/// Bytes of one encoded car.
pub const CAR_NUM_BYTES: usize = 162;

/// Bytes of one encoded boost pad.
pub const PAD_NUM_BYTES: usize = 14;

/// A snapshot on the wire: the header, the ball, the cars, the pads.
pub open spec fn spec_enc_game_state(g: GameStateView) -> Seq<u8> {
    spec_u64_to_le_bytes(g.tick_count) + spec_u32_to_le_bytes(g.tick_rate) + spec_enc_game_mode(
        g.game_mode,
    ) + spec_u32_to_le_bytes(g.cars.len() as u32) + spec_u32_to_le_bytes(g.pads.len() as u32)
        + spec_enc_ball(g.ball) + spec_enc_cars(g.cars) + spec_enc_pads(g.pads)
}

/// Parses the fixed-size snapshot header: tick count, tick rate, game mode,
/// car count, pad count.
pub open spec fn spec_parse_header(s: Seq<u8>) -> Option<((u64, u32, GameMode, u32, u32), Seq<u8>)> {
    match spec_parse_u64(s) {
        None => None,
        Some((tick_count, s)) => match spec_parse_u32(s) {
            None => None,
            Some((tick_rate, s)) => match spec_parse_game_mode(s) {
                None => None,
                Some((game_mode, s)) => match spec_parse_u32(s) {
                    None => None,
                    Some((nc, s)) => match spec_parse_u32(s) {
                        None => None,
                        Some((np, s)) => Some(((tick_count, tick_rate, game_mode, nc, np), s)),
                    },
                },
            },
        },
    }
}

/// Parses a whole snapshot; the input must be consumed exactly.
pub open spec fn spec_parse_game_state(s: Seq<u8>) -> Option<GameStateView> {
    match spec_parse_header(s) {
        None => None,
        Some(((tick_count, tick_rate, game_mode, nc, np), s)) => if nc <= MAX_CARS && np
            <= MAX_PADS {
            match spec_parse_ball(s) {
                None => None,
                Some((ball, s)) => match spec_parse_cars(nc as nat, s) {
                    None => None,
                    Some((cars, s)) => match spec_parse_pads(np as nat, s) {
                        None => None,
                        Some((pads, s)) => if s.len() == 0 {
                            Some(GameStateView { tick_count, tick_rate, game_mode, ball, cars, pads })
                        } else {
                            None
                        },
                    },
                },
            }
        } else {
            None
        },
    }
}

/// Reads the snapshot header at the cursor.
pub fn read_header(s: &[u8], pos: &mut usize) -> (r: Option<(u64, u32, GameMode, u32, u32)>)
    requires
        *old(pos) <= s@.len(),
    ensures
        match r {
            Some(h) => {
                &&& *final(pos) == *old(pos) + 21
                &&& *final(pos) <= s@.len()
                &&& spec_parse_header(s@.skip(*old(pos) as int)) == Some((
                    h,
                    s@.skip(*old(pos) + 21),
                ))
            },
            None => spec_parse_header(s@.skip(*old(pos) as int)) is None,
        },
{
    let slen: usize = s.len();
    if slen - *pos < 8 {
        return None;
    }
    let tick_count = read_u64(s, pos);
    if slen - *pos < 4 {
        return None;
    }
    let tick_rate = read_u32(s, pos);
    if slen - *pos < 1 {
        return None;
    }
    let game_mode = match read_game_mode(s, pos) {
        Some(m) => m,
        None => {
            return None;
        },
    };
    if slen - *pos < 4 {
        return None;
    }
    let nc = read_u32(s, pos);
    if slen - *pos < 4 {
        return None;
    }
    let np = read_u32(s, pos);
    Some((tick_count, tick_rate, game_mode, nc, np))
}

/// The exact length of an encoded snapshot with the given list sizes.
pub open spec fn spec_game_state_num_bytes(nc: int, np: int) -> int {
    GAME_STATE_MIN_NUM_BYTES + BALL_NUM_BYTES + nc * CAR_NUM_BYTES + np * PAD_NUM_BYTES
}

/// The car count named by a snapshot header.
pub open spec fn spec_header_num_cars(s: Seq<u8>) -> u32 {
    spec_u32_from_le_bytes(s.subrange(13, 17))
}

/// The pad count named by a snapshot header.
pub open spec fn spec_header_num_pads(s: Seq<u8>) -> u32 {
    spec_u32_from_le_bytes(s.subrange(17, 21))
}

impl GameState {
    /// Encodes this snapshot. The list lengths must fit the header's count
    /// fields, which `wf_game_state` guarantees.
    #[verifier::loop_isolation(false)]
    #[verifier::spinoff_prover]
    #[verifier::rlimit(100)]
    pub fn to_bytes(&self) -> (r: Vec<u8>)
        requires
            wf_game_state(self@),
        ensures
            r@ == spec_enc_game_state(self@),
    {
        let mut out: Vec<u8> = Vec::new();
        put_u64(&mut out, self.tick_count);
        put_u32(&mut out, self.tick_rate);
        put_game_mode(&mut out, self.game_mode);
        put_u32(&mut out, self.cars.len() as u32);
        put_u32(&mut out, self.pads.len() as u32);
        put_ball(&mut out, self.ball);
        let ghost head = out@;
        proof {
            assert(self.cars@.take(0) =~= Seq::<CarInfo>::empty());
            assert(spec_enc_cars(Seq::<CarInfo>::empty()) == Seq::<u8>::empty());
            assert(out@ =~= head + spec_enc_cars(self.cars@.take(0)));
        }
        let mut i: usize = 0;
        while i < self.cars.len()
            invariant
                i <= self.cars@.len(),
                out@ == head + spec_enc_cars(self.cars@.take(i as int)),
            decreases self.cars@.len() - i,
        {
            put_car(&mut out, self.cars[i]);
            i = i + 1;
            proof {
                let taken = self.cars@.take(i as int);
                lemma_enc_cars_snoc(taken);
                assert(taken.drop_last() =~= self.cars@.take(i - 1));
                assert(taken.last() == self.cars@[i - 1]);
                assert(out@ =~= head + spec_enc_cars(taken));
            }
        }
        proof {
            assert(self.cars@.take(self.cars@.len() as int) =~= self.cars@);
        }
        let ghost head2 = out@;
        proof {
            assert(self.pads@.take(0) =~= Seq::<BoostPadState>::empty());
            assert(spec_enc_pads(Seq::<BoostPadState>::empty()) == Seq::<u8>::empty());
            assert(out@ =~= head2 + spec_enc_pads(self.pads@.take(0)));
        }
        let mut j: usize = 0;
        while j < self.pads.len()
            invariant
                j <= self.pads@.len(),
                out@ == head2 + spec_enc_pads(self.pads@.take(j as int)),
            decreases self.pads@.len() - j,
        {
            put_pad(&mut out, self.pads[j]);
            j = j + 1;
            proof {
                let taken = self.pads@.take(j as int);
                lemma_enc_pads_snoc(taken);
                assert(taken.drop_last() =~= self.pads@.take(j - 1));
                assert(taken.last() == self.pads@[j - 1]);
                assert(out@ =~= head2 + spec_enc_pads(taken));
            }
        }
        proof {
            assert(self.pads@.take(self.pads@.len() as int) =~= self.pads@);
            assert(out@ =~= spec_enc_game_state(self@));
        }
        out
    }

    /// Decodes a snapshot; `None` exactly when the bytes are not a complete,
    /// well-formed encoding.
    #[verifier::spinoff_prover]
    #[verifier::rlimit(100)]
    pub fn from_bytes(s: &[u8]) -> (r: Option<GameState>)
        ensures
            match r {
                Some(g) => spec_parse_game_state(s@) == Some(g@),
                None => spec_parse_game_state(s@) is None,
            },
    {
        let slen: usize = s.len();
        let mut pos: usize = 0;
        let (tick_count, tick_rate, game_mode, nc, np) = match read_header(s, &mut pos) {
            Some(h) => h,
            None => {
                return None;
            },
        };
        proof {
            assert(s@.skip(0) =~= s@);
        }
        if nc > MAX_CARS || np > MAX_PADS {
            return None;
        }
        if slen - pos < 72 {
            proof {
                lemma_parse_ball_size(s@.skip(pos as int));
            }
            return None;
        }
        let ball = read_ball(s, &mut pos);
        let cars = match read_cars(s, &mut pos, nc) {
            Some(v) => v,
            None => {
                return None;
            },
        };
        let pads = match read_pads(s, &mut pos, np) {
            Some(v) => v,
            None => {
                return None;
            },
        };
        if pos != slen {
            return None;
        }
        let g = GameState { tick_count, tick_rate, game_mode, ball, cars, pads };
        proof {
            assert(spec_parse_game_state(s@) == Some(g@));
        }
        Some(g)
    }
}

/// Reads the tick count out of a peeked snapshot header without decoding the
/// rest: the stale-tick filter runs on this value.
pub fn read_tick_count(s: &[u8]) -> (r: u64)
    requires
        s@.len() >= 8,
    ensures
        r == spec_u64_from_le_bytes(s@.take(8)),
{
    let mut pos: usize = 0;
    let r = read_u64(s, &mut pos);
    proof {
        assert(s@.skip(0) =~= s@);
    }
    r
}

/// Whether a peeked snapshot header names list sizes within the supported
/// maxima; only then is the payload length defined.
pub fn header_counts_ok(s: &[u8]) -> (r: bool)
    requires
        s@.len() >= 21,
    ensures
        r == (spec_header_num_cars(s@) <= MAX_CARS && spec_header_num_pads(s@) <= MAX_PADS),
{
    let mut pos: usize = 13;
    let nc = read_u32(s, &mut pos);
    let np = read_u32(s, &mut pos);
    proof {
        assert(s@.skip(13).take(4) =~= s@.subrange(13, 17));
        assert(s@.skip(17).take(4) =~= s@.subrange(17, 21));
    }
    nc <= MAX_CARS && np <= MAX_PADS
}

/// The exact payload length of the snapshot whose header was peeked: the
/// transport reads exactly this many bytes before decoding.
pub fn get_num_bytes(s: &[u8]) -> (r: usize)
    requires
        s@.len() >= 21,
        spec_header_num_cars(s@) <= MAX_CARS,
        spec_header_num_pads(s@) <= MAX_PADS,
    ensures
        r == spec_game_state_num_bytes(
            spec_header_num_cars(s@) as int,
            spec_header_num_pads(s@) as int,
        ),
{
    let mut pos: usize = 13;
    let nc = read_u32(s, &mut pos);
    let np = read_u32(s, &mut pos);
    proof {
        assert(s@.skip(13).take(4) =~= s@.subrange(13, 17));
        assert(s@.skip(17).take(4) =~= s@.subrange(17, 21));
    }
    GAME_STATE_MIN_NUM_BYTES + BALL_NUM_BYTES + (nc as usize) * CAR_NUM_BYTES + (np as usize)
        * PAD_NUM_BYTES
}

/// Parsing an encoded snapshot header yields it back.
#[verifier::spinoff_prover]
#[verifier::rlimit(100)]
pub proof fn lemma_parse_enc_header(
    tick_count: u64,
    tick_rate: u32,
    game_mode: GameMode,
    nc: u32,
    np: u32,
    rest: Seq<u8>,
)
    ensures
        spec_parse_header(
            spec_u64_to_le_bytes(tick_count) + spec_u32_to_le_bytes(tick_rate)
                + spec_enc_game_mode(game_mode) + spec_u32_to_le_bytes(nc) + spec_u32_to_le_bytes(
                np,
            ) + rest,
        ) == Some(((tick_count, tick_rate, game_mode, nc, np), rest)),
{
    let r4 = spec_u32_to_le_bytes(np) + rest;
    let r3 = spec_u32_to_le_bytes(nc) + r4;
    let r2 = spec_enc_game_mode(game_mode) + r3;
    let r1 = spec_u32_to_le_bytes(tick_rate) + r2;
    assert(spec_u64_to_le_bytes(tick_count) + spec_u32_to_le_bytes(tick_rate)
        + spec_enc_game_mode(game_mode) + spec_u32_to_le_bytes(nc) + spec_u32_to_le_bytes(np)
        + rest =~= spec_u64_to_le_bytes(tick_count) + r1);
    lemma_parse_enc_u64(tick_count, r1);
    lemma_parse_enc_u32(tick_rate, r2);
    lemma_parse_enc_game_mode(game_mode, r3);
    lemma_parse_enc_u32(nc, r4);
    lemma_parse_enc_u32(np, rest);
}

/// Two-phase sizing over a peek: any buffer that agrees with a datagram on
/// the fixed-size prefix reads the same tick count and the same list sizes,
/// so filtering and sizing on the peeked bytes is filtering and sizing on
/// the datagram itself.
pub proof fn lemma_header_from_prefix(peeked: Seq<u8>, datagram: Seq<u8>)
    requires
        peeked.len() >= 21,
        datagram.len() >= 21,
        forall|i: int| 0 <= i < 21 ==> peeked[i] == datagram[i],
    ensures
        peeked.take(8) == datagram.take(8),
        spec_header_num_cars(peeked) == spec_header_num_cars(datagram),
        spec_header_num_pads(peeked) == spec_header_num_pads(datagram),
{
    assert(peeked.take(8) =~= datagram.take(8));
    assert(peeked.subrange(13, 17) =~= datagram.subrange(13, 17));
    assert(peeked.subrange(17, 21) =~= datagram.subrange(17, 21));
}

/// Codec round-trip: decoding an encoded snapshot yields the snapshot back,
/// for every well-formed snapshot, empty and maximal lists included.
#[verifier::spinoff_prover]
#[verifier::rlimit(100)]
pub proof fn lemma_game_state_round_trip(g: GameStateView)
    requires
        wf_game_state(g),
    ensures
        spec_parse_game_state(spec_enc_game_state(g)) == Some(g),
{
    let e_pads = spec_enc_pads(g.pads);
    let e_cars = spec_enc_cars(g.cars);
    let r6 = e_cars + e_pads;
    let r5 = spec_enc_ball(g.ball) + r6;
    let hdr = spec_u64_to_le_bytes(g.tick_count) + spec_u32_to_le_bytes(g.tick_rate)
        + spec_enc_game_mode(g.game_mode) + spec_u32_to_le_bytes(g.cars.len() as u32)
        + spec_u32_to_le_bytes(g.pads.len() as u32);
    assert(spec_enc_game_state(g) =~= hdr + r5);
    lemma_parse_enc_header(
        g.tick_count,
        g.tick_rate,
        g.game_mode,
        g.cars.len() as u32,
        g.pads.len() as u32,
        r5,
    );
    lemma_parse_enc_ball(g.ball, r6);
    assert(r6 =~= e_cars + (e_pads + Seq::<u8>::empty()));
    lemma_parse_enc_cars(g.cars, e_pads + Seq::<u8>::empty());
    lemma_parse_enc_pads(g.pads, Seq::<u8>::empty());
    assert((g.cars.len() as u32) as nat == g.cars.len());
    assert((g.pads.len() as u32) as nat == g.pads.len());
    assert(spec_parse_game_state(spec_enc_game_state(g)) == Some(g));
}

/// Two-phase sizing agrees with encoding: the header of an encoded snapshot
/// names its true tick count and list sizes, and the whole encoding has
/// exactly the length the header promises.
pub proof fn lemma_enc_game_state_header(g: GameStateView)
    requires
        wf_game_state(g),
    ensures
        spec_enc_game_state(g).len() == spec_game_state_num_bytes(
            g.cars.len() as int,
            g.pads.len() as int,
        ),
        spec_enc_game_state(g).len() >= 21,
        spec_u64_from_le_bytes(spec_enc_game_state(g).take(8)) == g.tick_count,
        spec_header_num_cars(spec_enc_game_state(g)) == g.cars.len(),
        spec_header_num_pads(spec_enc_game_state(g)) == g.pads.len(),
{
    lemma_auto_spec_u32_to_from_le_bytes();
    lemma_auto_spec_u64_to_from_le_bytes();
    lemma_enc_cars_len(g.cars);
    lemma_enc_pads_len(g.pads);
    let e = spec_enc_game_state(g);
    assert(e.take(8) =~= spec_u64_to_le_bytes(g.tick_count));
    assert(e.subrange(13, 17) =~= spec_u32_to_le_bytes(g.cars.len() as u32));
    assert(e.subrange(17, 21) =~= spec_u32_to_le_bytes(g.pads.len() as u32));
}

} // verus!
