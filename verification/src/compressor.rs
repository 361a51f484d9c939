//! Compressed pose keys: a piece pose and a tag packed into sixteen bits for
//! the search's de-duplication bitsets.
use vstd::prelude::*;

use crate::data::Move;
use crate::game::Game;

verus! {

/// Numeric code of a move inside a compressed key.
pub open spec fn spec_move_code(m: Move) -> u16 {
    match m {
        Move::Idle => 0,
        Move::Left => 1,
        Move::Right => 2,
        Move::SoftDrop => 3,
        Move::CCW => 4,
        Move::CW => 5,
        Move::Flip => 6,
        Move::DasLeft => 7,
        Move::DasRight => 8,
        Move::Hold => 9,
        Move::HardDrop => 10,
    }
}

/// Numeric code of a move inside a compressed key.
pub fn move_code(m: Move) -> (r: u16)
    ensures
        r == spec_move_code(m),
{
    match m {
        Move::Idle => 0,
        Move::Left => 1,
        Move::Right => 2,
        Move::SoftDrop => 3,
        Move::CCW => 4,
        Move::CW => 5,
        Move::Flip => 6,
        Move::DasLeft => 7,
        Move::DasRight => 8,
        Move::Hold => 9,
        Move::HardDrop => 10,
    }
}

/// A pose and the move that reached it, packed as
/// `x | y << 4 | rot << 10 | move << 12`.
pub open spec fn spec_key(x: u16, y: u16, rot: u16, code: u16) -> u16 {
    (x & 0xF) | ((y & 0x3F) << 4u16) | ((rot & 0x3) << 10u16) | ((code & 0xF) << 12u16)
}

/// Packing then unpacking a key gives back every in-range field.
pub proof fn lemma_key_roundtrip()
    by (bit_vector)
    ensures
        forall|x: u16, y: u16, rot: u16, c: u16|
            x < 16 && y < 64 && rot < 4 && c < 16 ==> ((#[trigger] spec_key(x, y, rot, c)) & 0xF)
                == x && ((spec_key(x, y, rot, c) >> 4u16) & 0x3F) == y && ((spec_key(x, y, rot, c)
                >> 10u16) & 0x3) == rot && ((spec_key(x, y, rot, c) >> 12u16) & 0xF) == c,
{
}

/// Pack the current pose and the move that reached it.
pub fn compress_key(state: &Game, last_move: Move) -> (r: u16)
    ensures
        r == spec_key(
            state.piece.x as u16,
            state.piece.y as u16,
            state.piece.rot as u16,
            spec_move_code(last_move),
        ),
{
    let mut res: u16 = 0;
    res = res | (state.piece.x as u16 & 0xF);
    res = res | ((state.piece.y as u16 & 0x3F) << 4u16);
    res = res | ((state.piece.rot as u16 & 0x3) << 10u16);
    res = res | ((move_code(last_move) & 0xF) << 12u16);
    proof {
        let x = state.piece.x as u16;
        let y = state.piece.y as u16;
        let rot = state.piece.rot as u16;
        let c = spec_move_code(last_move);
        assert(((0u16 | (x & 0xF)) | ((y & 0x3F) << 4u16) | ((rot & 0x3) << 10u16) | ((c & 0xF)
            << 12u16)) == spec_key(x, y, rot, c)) by (bit_vector);
    }
    res
}

/// Unpack a pose key whose move field holds one of the pose-changing moves.
pub fn decompress_key(state: u16) -> (r: (u8, u8, u8, Move))
    requires
        (state >> 12u16) & 0xF <= 6,
    ensures
        r.0 == (state & 0xF) as u8,
        r.1 == ((state >> 4u16) & 0x3F) as u8,
        r.2 == ((state >> 10u16) & 0x3) as u8,
        spec_move_code(r.3) == (state >> 12u16) & 0xF,
{
    let x = (state & 0xF) as u8;
    let y = ((state >> 4u16) & 0x3F) as u8;
    let rot = ((state >> 10u16) & 0x3) as u8;
    let code = (state >> 12u16) & 0xF;
    let mv = if code == 0 {
        Move::Idle
    } else if code == 1 {
        Move::Left
    } else if code == 2 {
        Move::Right
    } else if code == 3 {
        Move::SoftDrop
    } else if code == 4 {
        Move::CCW
    } else if code == 5 {
        Move::CW
    } else {
        Move::Flip
    };
    (x, y, rot, mv)
}

/// Pack a placement: the pose plus whether the hold slot was used first.
pub fn compress_move(state: &Game, hold: bool) -> (r: u16)
    ensures
        r == spec_key(
            state.piece.x as u16,
            state.piece.y as u16,
            state.piece.rot as u16,
            if hold {
                1u16
            } else {
                0u16
            },
        ),
{
    let mut res: u16 = 0;
    res = res | (state.piece.x as u16 & 0xF);
    res = res | ((state.piece.y as u16 & 0x3F) << 4u16);
    res = res | ((state.piece.rot as u16 & 0x3) << 10u16);
    let h: u16 = if hold {
        1
    } else {
        0
    };
    res = res | ((h & 0x1) << 12u16);
    proof {
        let x = state.piece.x as u16;
        let y = state.piece.y as u16;
        let rot = state.piece.rot as u16;
        assert(h < 2 ==> ((0u16 | (x & 0xF)) | ((y & 0x3F) << 4u16) | ((rot & 0x3) << 10u16) | ((h
            & 0x1) << 12u16)) == spec_key(x, y, rot, h)) by (bit_vector);
    }
    res
}

/// Unpack a placement key.
pub fn decompress_move(state: u16) -> (r: (u8, u8, u8, bool))
    ensures
        r.0 == (state & 0xF) as u8,
        r.1 == ((state >> 4u16) & 0x3F) as u8,
        r.2 == ((state >> 10u16) & 0x3) as u8,
        r.3 == (((state >> 12u16) & 0x1) != 0),
{
    let x = (state & 0xF) as u8;
    let y = ((state >> 4u16) & 0x3F) as u8;
    let rot = ((state >> 10u16) & 0x3) as u8;
    let hold = ((state >> 12u16) & 0x1) != 0;
    (x, y, rot, hold)
}

/// Rewrite a pose key's tag field into a hold flag.
pub fn convert_compressed(key: u16, hold: bool) -> (r: u16)
    ensures
        r == ((key & 0x0FFF) | (if hold {
            0x1000u16
        } else {
            0u16
        })),
{
    let mut k = key & 0x0FFF;
    if hold {
        k = k | 0x1000;
    }
    proof {
        assert((key & 0x0FFF) | 0u16 == (key & 0x0FFF)) by (bit_vector);
    }
    k
}

} // verus!
