//! The per-rotation collision field.
//!
//! For the current shape and board, `states[rot][x]` has bit `y` set iff a
//! piece with origin `(x, y)` at rotation `rot` would overlap the board or
//! leave it.  One sentinel column on each side of the board makes every
//! origin column in `0..12` meaningful, so a single bit test replaces the
//! four per-block cell tests.
use vstd::prelude::*;

use crate::bits::lemma_bit_build_term;
use crate::bits::lemma_bit_or;
use crate::bits::lemma_bit_zero;
use crate::bits::nth_bit;
use crate::board::Board;
use crate::data::spec_blocks;
use crate::data::Mino;
use crate::FIELD_WIDTH;

verus! {

/// One block of a piece at origin `(x, y)` collides: the block pokes below
/// the floor or its absolute cell is solid (off-board columns are solid).
pub open spec fn block_hit(b: Board, blk: (u8, u8), x: int, y: int) -> bool {
    y < blk.1 || b.solid(x - blk.0, y - blk.1)
}

/// Some block of shape `m` at rotation `rot`, origin `(x, y)`, collides.
pub open spec fn blocks_hit(b: Board, m: Mino, rot: int, x: int, y: int) -> bool {
    exists|i: int| 0 <= i < 4 && #[trigger] block_hit(b, spec_blocks(m, rot)[i], x, y)
}

/// A piece with origin `(x, y)` at rotation `rot` cannot rest there: the
/// origin is outside the field or some block overlaps the board or its edge.
pub open spec fn pose_collides(b: Board, m: Mino, rot: int, x: int, y: int) -> bool {
    !(0 <= x < 12) || !(0 <= y < 40) || blocks_hit(b, m, rot, x, y)
}

/// Four 12-column bitmaps marking "piece origin here collides".
#[derive(Clone, Copy, Debug)]
pub struct CollisionMap {
    pub states: [[u64; FIELD_WIDTH]; 4],
}

impl CollisionMap {
    /// The field describes board `b` and shape `m`.
    pub open spec fn wf_for(self, b: Board, m: Mino) -> bool {
        forall|r: int, x: int, yu: u64|
            0 <= r < 4 && 0 <= x < 12 && yu < 40 ==> (#[trigger] nth_bit(self.states@[r]@[x], yu))
                == blocks_hit(b, m, r, x, yu as int)
    }

    /// Build the collision field of board `b` for shape `m`.
    #[verifier::loop_isolation(false)]
    pub fn new(b: &Board, m: Mino) -> (r: CollisionMap)
        requires
            b.wf(),
        ensures
            r.wf_for(*b, m),
    {
        proof {
            lemma_bit_or();
            lemma_bit_build_term();
            lemma_bit_zero();
        }
        let mut states: [[u64; FIELD_WIDTH]; 4] = [
            [0u64, 0u64, 0u64, 0u64, 0u64, 0u64, 0u64, 0u64, 0u64, 0u64, 0u64, 0u64],
            [0u64, 0u64, 0u64, 0u64, 0u64, 0u64, 0u64, 0u64, 0u64, 0u64, 0u64, 0u64],
            [0u64, 0u64, 0u64, 0u64, 0u64, 0u64, 0u64, 0u64, 0u64, 0u64, 0u64, 0u64],
            [0u64, 0u64, 0u64, 0u64, 0u64, 0u64, 0u64, 0u64, 0u64, 0u64, 0u64, 0u64],
        ];
        let mut rot: usize = 0;
        while rot < 4
            invariant
                rot <= 4,
                b.wf(),
                forall|r: int, x: int, yu: u64|
                    0 <= r < rot && 0 <= x < 12 && yu < 40 ==> (#[trigger] nth_bit(
                        states@[r]@[x],
                        yu,
                    )) == blocks_hit(*b, m, r, x, yu as int),
            decreases 4 - rot,
        {
            let blocks = m.rot(rot as u8);
            proof {
                crate::data::lemma_blocks_bounds(m, rot as int);
            }
            let mut row: [u64; FIELD_WIDTH] = [
                0u64,
                0u64,
                0u64,
                0u64,
                0u64,
                0u64,
                0u64,
                0u64,
                0u64,
                0u64,
                0u64,
                0u64,
            ];
            let mut x: usize = 0;
            while x < 12
                invariant
                    x <= 12,
                    rot < 4,
                    b.wf(),
                    blocks@ == spec_blocks(m, rot as int),
                    forall|i: int, yu: u64|
                        0 <= i < x && yu < 40 ==> (#[trigger] nth_bit(row@[i], yu)) == blocks_hit(
                            *b,
                            m,
                            rot as int,
                            i,
                            yu as int,
                        ),
                decreases 12 - x,
            {
                let t0 = Self::term(b, blocks[0], x);
                let t1 = Self::term(b, blocks[1], x);
                let t2 = Self::term(b, blocks[2], x);
                let t3 = Self::term(b, blocks[3], x);
                let v = t0 | t1 | t2 | t3;
                proof {
                    assert forall|yu: u64| yu < 40 implies (#[trigger] nth_bit(v, yu))
                        == blocks_hit(*b, m, rot as int, x as int, yu as int) by {
                        let s = spec_blocks(m, rot as int);
                        if nth_bit(v, yu) {
                            if nth_bit(t0, yu) {
                                assert(block_hit(*b, s[0], x as int, yu as int));
                            } else if nth_bit(t1, yu) {
                                assert(block_hit(*b, s[1], x as int, yu as int));
                            } else if nth_bit(t2, yu) {
                                assert(block_hit(*b, s[2], x as int, yu as int));
                            } else {
                                assert(block_hit(*b, s[3], x as int, yu as int));
                            }
                        }
                        if blocks_hit(*b, m, rot as int, x as int, yu as int) {
                            let i = choose|i: int|
                                0 <= i < 4 && #[trigger] block_hit(*b, s[i], x as int, yu as int);
                            assert(i == 0 || i == 1 || i == 2 || i == 3);
                            assert(nth_bit(v, yu));
                        }
                    }
                }
                let ghost prev = row@;
                row[x] = v;
                proof {
                    assert(row@ == prev.update(x as int, v));
                }
                x = x + 1;
            }
            let ghost prevs = states@;
            states[rot] = row;
            proof {
                assert(states@ == prevs.update(rot as int, row));
            }
            rot = rot + 1;
        }
        CollisionMap { states }
    }

    /// The mask column of one block: solid source cells shifted up by the
    /// block's `dy`, with everything below `dy` colliding.
    #[verifier::loop_isolation(false)]
    fn term(b: &Board, blk: (u8, u8), x: usize) -> (t: u64)
        requires
            b.wf(),
            x < 12,
            blk.0 <= 3,
            blk.1 <= 3,
        ensures
            forall|yu: u64|
                yu < 40 ==> (#[trigger] nth_bit(t, yu)) == block_hit(
                    *b,
                    blk,
                    x as int,
                    yu as int,
                ),
    {
        proof {
            lemma_bit_build_term();
            lemma_bit_zero();
        }
        let (dx, dy) = blk;
        let dx = dx as usize;
        let src: u64 = if x >= dx && x - dx < 10 {
            proof {
                assert(b.col(x as int - dx as int) == b.cols@[x as int - dx as int]);
            }
            b.cols[x - dx]
        } else {
            !0u64
        };
        let t = !((!src) << (dy as u64));
        proof {
            assert forall|yu: u64| yu < 40 implies (#[trigger] nth_bit(t, yu)) == block_hit(
                *b,
                blk,
                x as int,
                yu as int,
            ) by {
                assert(nth_bit(t, yu) == (yu < dy || nth_bit(src, (yu - dy as u64) as u64)));
            }
        }
        t
    }

    /// Bit test of the field: origins outside the field or above the usable
    /// rows collide.  Whenever the field describes a board and shape, this is
    /// exactly the direct four-block collision test on that board.
    pub fn test(&self, x: u8, y: u8, rot: u8) -> (r: bool)
        requires
            rot < 4,
        ensures
            forall|b: Board, m: Mino|
                #[trigger] self.wf_for(b, m) ==> r == pose_collides(b, m, rot as int, x as int, y as int),
    {
        if x >= 12 || y >= 40 {
            return true;
        }
        let r = (self.states[rot as usize][x as usize] >> (y as u64)) & 1u64 == 1u64;
        proof {
            assert forall|b: Board, m: Mino| #[trigger] self.wf_for(b, m) implies r
                == pose_collides(b, m, rot as int, x as int, y as int) by {
                assert(nth_bit(self.states@[rot as int]@[x as int], y as u64) == blocks_hit(
                    b,
                    m,
                    rot as int,
                    x as int,
                    y as int,
                ));
            }
        }
        r
    }
}

/// The collision field agrees with direct board testing: wherever the field
/// describes a board, its bit at `(x, y, rot)` is set exactly when some block
/// of the piece, placed at that origin, overlaps a filled cell or leaves the
/// board.
pub proof fn lemma_field_matches_board(cm: CollisionMap, b: Board, m: Mino, rot: int, x: int, y: int)
    requires
        cm.wf_for(b, m),
        0 <= rot < 4,
        0 <= x < 12,
        0 <= y < 40,
    ensures
        nth_bit(cm.states@[rot]@[x], y as u64) == blocks_hit(b, m, rot, x, y),
        nth_bit(cm.states@[rot]@[x], y as u64) == pose_collides(b, m, rot, x, y),
{
}

} // verus!
