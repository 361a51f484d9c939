//! Piece catalogue: the seven tetromino shapes, their per-rotation block
//! offsets, bounding widths, the kick offset tables, and the small enums the
//! engine is configured with.
//!
//! A piece's origin is the top-right corner of its bounding box; the absolute
//! cell of a block `(dx, dy)` for a piece at `(x, y)` is `(x - dx, y - dy)`.
use vstd::prelude::*;

verus! {

/// The seven tetromino shapes.
#[derive(Clone, Copy, Debug, PartialEq, Eq, Structural)]
pub enum Mino {
    I,
    J,
    L,
    O,
    S,
    T,
    Z,
}

/// Spin classification of the most recent successful rotation.
#[derive(Clone, Copy, Debug, PartialEq, Eq, Structural)]
pub enum Spin {
    NoSpin,
    Mini,
    Normal,
}

/// Which placements are credited as spins.
#[derive(Clone, Copy, Debug, PartialEq, Eq, Structural)]
pub enum Spins {
    Off,
    T,
    TPlus,
    Mini,
    MiniPlus,
    All,
    AllPlus,
}

/// How consecutive clears convert into extra damage.
#[derive(Clone, Copy, Debug, PartialEq, Eq, Structural)]
pub enum ComboTable {
    Off,
    Classic,
    Modern,
    Multiplier,
}

/// The input alphabet of the falling-piece state machine.
#[derive(Clone, Copy, Debug, PartialEq, Eq, Structural)]
pub enum Move {
    Idle,
    Left,
    Right,
    SoftDrop,
    CCW,
    CW,
    Flip,
    DasLeft,
    DasRight,
    Hold,
    HardDrop,
}

/// The kick-table families.
#[derive(Clone, Copy, Debug, PartialEq, Eq, Structural)]
pub enum KickTable {
    SRS,
    SRSPlus,
}

/// Bounding width of a shape's rotation box.
pub open spec fn spec_width(m: Mino) -> u8 {
    match m {
        Mino::I => 4,
        Mino::O => 2,
        _ => 3,
    }
}

/// Block offsets of shape `m` at rotation `r` (rotations are taken mod 4 by
/// the callers; `r` outside `0..4` falls back to rotation 3).
#[verifier::opaque]
pub open spec fn spec_blocks(m: Mino, r: int) -> Seq<(u8, u8)> {
    match m {
        Mino::I => if r == 0 {
            seq![(0u8, 1u8), (1u8, 1u8), (2u8, 1u8), (3u8, 1u8)]
        } else if r == 1 {
            seq![(1u8, 3u8), (1u8, 2u8), (1u8, 1u8), (1u8, 0u8)]
        } else if r == 2 {
            seq![(3u8, 2u8), (2u8, 2u8), (1u8, 2u8), (0u8, 2u8)]
        } else {
            seq![(2u8, 0u8), (2u8, 1u8), (2u8, 2u8), (2u8, 3u8)]
        },
        Mino::L => if r == 0 {
            seq![(0u8, 0u8), (0u8, 1u8), (1u8, 1u8), (2u8, 1u8)]
        } else if r == 1 {
            seq![(0u8, 2u8), (1u8, 2u8), (1u8, 1u8), (1u8, 0u8)]
        } else if r == 2 {
            seq![(2u8, 2u8), (2u8, 1u8), (1u8, 1u8), (0u8, 1u8)]
        } else {
            seq![(2u8, 0u8), (1u8, 0u8), (1u8, 1u8), (1u8, 2u8)]
        },
        Mino::J => if r == 0 {
            seq![(2u8, 0u8), (0u8, 1u8), (1u8, 1u8), (2u8, 1u8)]
        } else if r == 1 {
            seq![(0u8, 0u8), (1u8, 2u8), (1u8, 1u8), (1u8, 0u8)]
        } else if r == 2 {
            seq![(0u8, 2u8), (2u8, 1u8), (1u8, 1u8), (0u8, 1u8)]
        } else {
            seq![(2u8, 2u8), (1u8, 0u8), (1u8, 1u8), (1u8, 2u8)]
        },
        Mino::O => if r == 0 {
            seq![(0u8, 0u8), (1u8, 0u8), (0u8, 1u8), (1u8, 1u8)]
        } else if r == 1 {
            seq![(0u8, 1u8), (0u8, 0u8), (1u8, 1u8), (1u8, 0u8)]
        } else if r == 2 {
            seq![(1u8, 1u8), (0u8, 1u8), (1u8, 0u8), (0u8, 0u8)]
        } else {
            seq![(1u8, 0u8), (1u8, 1u8), (0u8, 0u8), (0u8, 1u8)]
        },
        Mino::Z => if r == 0 {
            seq![(1u8, 0u8), (2u8, 0u8), (0u8, 1u8), (1u8, 1u8)]
        } else if r == 1 {
            seq![(0u8, 1u8), (0u8, 0u8), (1u8, 2u8), (1u8, 1u8)]
        } else if r == 2 {
            seq![(1u8, 2u8), (0u8, 2u8), (2u8, 1u8), (1u8, 1u8)]
        } else {
            seq![(2u8, 1u8), (2u8, 2u8), (1u8, 0u8), (1u8, 1u8)]
        },
        Mino::T => if r == 0 {
            seq![(1u8, 0u8), (0u8, 1u8), (1u8, 1u8), (2u8, 1u8)]
        } else if r == 1 {
            seq![(0u8, 1u8), (1u8, 2u8), (1u8, 1u8), (1u8, 0u8)]
        } else if r == 2 {
            seq![(1u8, 2u8), (2u8, 1u8), (1u8, 1u8), (0u8, 1u8)]
        } else {
            seq![(2u8, 1u8), (1u8, 0u8), (1u8, 1u8), (1u8, 2u8)]
        },
        Mino::S => if r == 0 {
            seq![(0u8, 0u8), (1u8, 0u8), (1u8, 1u8), (2u8, 1u8)]
        } else if r == 1 {
            seq![(0u8, 2u8), (0u8, 1u8), (1u8, 1u8), (1u8, 0u8)]
        } else if r == 2 {
            seq![(2u8, 2u8), (1u8, 2u8), (1u8, 1u8), (0u8, 1u8)]
        } else {
            seq![(2u8, 0u8), (2u8, 1u8), (1u8, 1u8), (1u8, 2u8)]
        },
    }
}

/// Every block offset stays inside the 4-wide bounding box.
pub proof fn lemma_blocks_bounds(m: Mino, r: int)
    ensures
        spec_blocks(m, r).len() == 4,
        forall|i: int|
            0 <= i < 4 ==> (#[trigger] spec_blocks(m, r)[i]).0 <= 3 && spec_blocks(m, r)[i].1 <= 3,
{
    reveal(spec_blocks);
    let s = spec_blocks(m, r);
    assert forall|i: int| 0 <= i < 4 implies (#[trigger] s[i]).0 <= 3 && s[i].1 <= 3 by {
        assert(i == 0 || i == 1 || i == 2 || i == 3);
    }
}

/// Per-rotation block offsets and bounding width of one shape.
pub struct TetrominoMatrix {
    pub w: u8,
    pub rots: [[(u8, u8); 4]; 4],
}

impl Mino {
    /// The four block offsets of this shape at rotation `rot`.
    pub fn rot(&self, rot: u8) -> (r: [(u8, u8); 4])
        requires
            rot < 4,
        ensures
            r@ == spec_blocks(*self, rot as int),
    {
        let r = match self {
            Mino::I => {
                if rot == 0 {
                    [(0u8, 1u8), (1u8, 1u8), (2u8, 1u8), (3u8, 1u8)]
                } else if rot == 1 {
                    [(1u8, 3u8), (1u8, 2u8), (1u8, 1u8), (1u8, 0u8)]
                } else if rot == 2 {
                    [(3u8, 2u8), (2u8, 2u8), (1u8, 2u8), (0u8, 2u8)]
                } else {
                    [(2u8, 0u8), (2u8, 1u8), (2u8, 2u8), (2u8, 3u8)]
                }
            },
            Mino::L => {
                if rot == 0 {
                    [(0u8, 0u8), (0u8, 1u8), (1u8, 1u8), (2u8, 1u8)]
                } else if rot == 1 {
                    [(0u8, 2u8), (1u8, 2u8), (1u8, 1u8), (1u8, 0u8)]
                } else if rot == 2 {
                    [(2u8, 2u8), (2u8, 1u8), (1u8, 1u8), (0u8, 1u8)]
                } else {
                    [(2u8, 0u8), (1u8, 0u8), (1u8, 1u8), (1u8, 2u8)]
                }
            },
            Mino::J => {
                if rot == 0 {
                    [(2u8, 0u8), (0u8, 1u8), (1u8, 1u8), (2u8, 1u8)]
                } else if rot == 1 {
                    [(0u8, 0u8), (1u8, 2u8), (1u8, 1u8), (1u8, 0u8)]
                } else if rot == 2 {
                    [(0u8, 2u8), (2u8, 1u8), (1u8, 1u8), (0u8, 1u8)]
                } else {
                    [(2u8, 2u8), (1u8, 0u8), (1u8, 1u8), (1u8, 2u8)]
                }
            },
            Mino::O => {
                if rot == 0 {
                    [(0u8, 0u8), (1u8, 0u8), (0u8, 1u8), (1u8, 1u8)]
                } else if rot == 1 {
                    [(0u8, 1u8), (0u8, 0u8), (1u8, 1u8), (1u8, 0u8)]
                } else if rot == 2 {
                    [(1u8, 1u8), (0u8, 1u8), (1u8, 0u8), (0u8, 0u8)]
                } else {
                    [(1u8, 0u8), (1u8, 1u8), (0u8, 0u8), (0u8, 1u8)]
                }
            },
            Mino::Z => {
                if rot == 0 {
                    [(1u8, 0u8), (2u8, 0u8), (0u8, 1u8), (1u8, 1u8)]
                } else if rot == 1 {
                    [(0u8, 1u8), (0u8, 0u8), (1u8, 2u8), (1u8, 1u8)]
                } else if rot == 2 {
                    [(1u8, 2u8), (0u8, 2u8), (2u8, 1u8), (1u8, 1u8)]
                } else {
                    [(2u8, 1u8), (2u8, 2u8), (1u8, 0u8), (1u8, 1u8)]
                }
            },
            Mino::T => {
                if rot == 0 {
                    [(1u8, 0u8), (0u8, 1u8), (1u8, 1u8), (2u8, 1u8)]
                } else if rot == 1 {
                    [(0u8, 1u8), (1u8, 2u8), (1u8, 1u8), (1u8, 0u8)]
                } else if rot == 2 {
                    [(1u8, 2u8), (2u8, 1u8), (1u8, 1u8), (0u8, 1u8)]
                } else {
                    [(2u8, 1u8), (1u8, 0u8), (1u8, 1u8), (1u8, 2u8)]
                }
            },
            Mino::S => {
                if rot == 0 {
                    [(0u8, 0u8), (1u8, 0u8), (1u8, 1u8), (2u8, 1u8)]
                } else if rot == 1 {
                    [(0u8, 2u8), (0u8, 1u8), (1u8, 1u8), (1u8, 0u8)]
                } else if rot == 2 {
                    [(2u8, 2u8), (1u8, 2u8), (1u8, 1u8), (0u8, 1u8)]
                } else {
                    [(2u8, 0u8), (2u8, 1u8), (1u8, 1u8), (1u8, 2u8)]
                }
            },
        };
        proof {
            reveal(spec_blocks);
            assert(r@ =~= spec_blocks(*self, rot as int));
        }
        r
    }

    /// Bounding width of this shape.
    pub fn width(&self) -> (r: u8)
        ensures
            r == spec_width(*self),
    {
        match self {
            Mino::I => 4,
            Mino::O => 2,
            _ => 3,
        }
    }

    /// The full rotation table and width of this shape.
    pub fn data(&self) -> (r: TetrominoMatrix)
        ensures
            r.w == spec_width(*self),
            forall|i: int| 0 <= i < 4 ==> (#[trigger] r.rots@[i])@ == spec_blocks(*self, i),
    {
        let rots = [self.rot(0), self.rot(1), self.rot(2), self.rot(3)];
        proof {
            assert(rots@[0]@ == spec_blocks(*self, 0));
            assert(rots@[1]@ == spec_blocks(*self, 1));
            assert(rots@[2]@ == spec_blocks(*self, 2));
            assert(rots@[3]@ == spec_blocks(*self, 3));
        }
        TetrominoMatrix { w: self.width(), rots }
    }

    /// One-letter name of the shape.
    pub fn str(&self) -> (r: &'static str)
        ensures
            r@ == spec_mino_name(*self),
    {
        match self {
            Mino::I => "I",
            Mino::J => "J",
            Mino::L => "L",
            Mino::O => "O",
            Mino::S => "S",
            Mino::T => "T",
            Mino::Z => "Z",
        }
    }

    /// Terminal colour cell used when a board is pretty-printed.
    pub fn block_str(&self) -> &'static str {
        match self {
            Mino::I => "\x1b[46m  \x1b[49m",
            Mino::J => "\x1b[44m  \x1b[49m",
            Mino::L => "\x1b[43m  \x1b[49m",
            Mino::O => "\x1b[47m  \x1b[49m",
            Mino::S => "\x1b[102m  \x1b[49m",
            Mino::T => "\x1b[105m  \x1b[49m",
            Mino::Z => "\x1b[101m  \x1b[49m",
        }
    }
}

/// One-letter name of a shape.
pub open spec fn spec_mino_name(m: Mino) -> Seq<char> {
    match m {
        Mino::I => "I"@,
        Mino::J => "J"@,
        Mino::L => "L"@,
        Mino::O => "O"@,
        Mino::S => "S"@,
        Mino::T => "T"@,
        Mino::Z => "Z"@,
    }
}

impl Spin {
    /// Lower-case name of the classification.
    pub fn str(&self) -> (r: &'static str)
        ensures
            *self == Spin::NoSpin ==> r@ == "none"@,
            *self == Spin::Mini ==> r@ == "mini"@,
            *self == Spin::Normal ==> r@ == "normal"@,
    {
        match self {
            Spin::NoSpin => "none",
            Spin::Mini => "mini",
            Spin::Normal => "normal",
        }
    }
}

/// Index of a `from -> to` rotation pair in the kick tables, `from != to`.
pub open spec fn spec_kick_index(from: int, to: int) -> int {
    if from == 0 && to == 1 {
        0
    } else if from == 1 && to == 0 {
        1
    } else if from == 1 && to == 2 {
        2
    } else if from == 2 && to == 1 {
        3
    } else if from == 2 && to == 3 {
        4
    } else if from == 3 && to == 2 {
        5
    } else if from == 3 && to == 0 {
        6
    } else if from == 0 && to == 3 {
        7
    } else if from == 0 && to == 2 {
        8
    } else if from == 1 && to == 3 {
        9
    } else if from == 2 && to == 0 {
        10
    } else {
        11
    }
}

/// Kick row shared by every non-I shape in both families.
pub open spec fn spec_std_kicks(idx: int) -> Seq<(i8, i8)> {
    if idx == 0 {
        seq![(0i8, 0i8), (-1i8, 0i8), (-1i8, -1i8), (0i8, 2i8), (-1i8, 2i8)]
    } else if idx == 1 {
        seq![(0i8, 0i8), (1i8, 0i8), (1i8, 1i8), (0i8, -2i8), (1i8, -2i8)]
    } else if idx == 2 {
        seq![(0i8, 0i8), (1i8, 0i8), (1i8, 1i8), (0i8, -2i8), (1i8, -2i8)]
    } else if idx == 3 {
        seq![(0i8, 0i8), (-1i8, 0i8), (-1i8, -1i8), (0i8, 2i8), (-1i8, 2i8)]
    } else if idx == 4 {
        seq![(0i8, 0i8), (1i8, 0i8), (1i8, -1i8), (0i8, 2i8), (1i8, 2i8)]
    } else if idx == 5 {
        seq![(0i8, 0i8), (-1i8, 0i8), (-1i8, 1i8), (0i8, -2i8), (-1i8, -2i8)]
    } else if idx == 6 {
        seq![(0i8, 0i8), (-1i8, 0i8), (-1i8, 1i8), (0i8, -2i8), (-1i8, -2i8)]
    } else if idx == 7 {
        seq![(0i8, 0i8), (1i8, 0i8), (1i8, -1i8), (0i8, 2i8), (1i8, 2i8)]
    } else if idx == 8 {
        seq![(0i8, -1i8), (1i8, -1i8), (-1i8, -1i8), (1i8, 0i8), (-1i8, 0i8)]
    } else if idx == 9 {
        seq![(1i8, 0i8), (1i8, -2i8), (1i8, -1i8), (0i8, -2i8), (0i8, -1i8)]
    } else if idx == 10 {
        seq![(0i8, 1i8), (-1i8, 1i8), (1i8, 1i8), (-1i8, 0i8), (1i8, 0i8)]
    } else {
        seq![(-1i8, 0i8), (-1i8, -2i8), (-1i8, -1i8), (0i8, -2i8), (0i8, -1i8)]
    }
}

/// Kick row of the I shape in the SRS family.
pub open spec fn spec_srs_i_kicks(idx: int) -> Seq<(i8, i8)> {
    if idx == 0 {
        seq![(0i8, 0i8), (-2i8, 0i8), (1i8, 0i8), (-2i8, 1i8), (1i8, -2i8)]
    } else if idx == 1 {
        seq![(0i8, 0i8), (2i8, 0i8), (-1i8, 0i8), (2i8, -1i8), (-1i8, 2i8)]
    } else if idx == 2 {
        seq![(0i8, 0i8), (-1i8, 0i8), (2i8, 0i8), (-1i8, -2i8), (2i8, 1i8)]
    } else if idx == 3 {
        seq![(0i8, 0i8), (1i8, 0i8), (-2i8, 0i8), (1i8, 2i8), (-2i8, -1i8)]
    } else if idx == 4 {
        seq![(0i8, 0i8), (2i8, 0i8), (-1i8, 0i8), (2i8, -1i8), (-1i8, 2i8)]
    } else if idx == 5 {
        seq![(0i8, 0i8), (-2i8, 0i8), (1i8, 0i8), (-2i8, 1i8), (1i8, -2i8)]
    } else if idx == 6 {
        seq![(0i8, 0i8), (1i8, 0i8), (-2i8, 0i8), (1i8, 2i8), (-2i8, -1i8)]
    } else if idx == 7 {
        seq![(0i8, 0i8), (-1i8, 0i8), (2i8, 0i8), (-1i8, -2i8), (2i8, 1i8)]
    } else {
        seq![(0i8, 0i8), (0i8, 0i8), (0i8, 0i8), (0i8, 0i8), (0i8, 0i8)]
    }
}

/// Kick row of the I shape in the SRS+ family.
pub open spec fn spec_srs_plus_i_kicks(idx: int) -> Seq<(i8, i8)> {
    if idx == 0 {
        seq![(0i8, 0i8), (1i8, 0i8), (-2i8, 0i8), (-2i8, 1i8), (1i8, -2i8)]
    } else if idx == 1 {
        seq![(0i8, 0i8), (-1i8, 0i8), (2i8, 0i8), (-1i8, 2i8), (2i8, -1i8)]
    } else if idx == 2 {
        seq![(0i8, 0i8), (-1i8, 0i8), (2i8, 0i8), (-1i8, -2i8), (2i8, 1i8)]
    } else if idx == 3 {
        seq![(0i8, 0i8), (-2i8, 0i8), (1i8, 0i8), (-2i8, -1i8), (1i8, 2i8)]
    } else if idx == 4 {
        seq![(0i8, 0i8), (2i8, 0i8), (-1i8, 0i8), (2i8, -1i8), (-1i8, 2i8)]
    } else if idx == 5 {
        seq![(0i8, 0i8), (1i8, 0i8), (-2i8, 0i8), (1i8, -2i8), (-2i8, 1i8)]
    } else if idx == 6 {
        seq![(0i8, 0i8), (1i8, 0i8), (-2i8, 0i8), (1i8, 2i8), (-2i8, -1i8)]
    } else if idx == 7 {
        seq![(0i8, 0i8), (-1i8, 0i8), (2i8, 0i8), (2i8, 1i8), (-1i8, -2i8)]
    } else if idx == 8 {
        seq![(0i8, 0i8), (0i8, -1i8), (0i8, 0i8), (0i8, 0i8), (0i8, 0i8)]
    } else if idx == 9 {
        seq![(0i8, 0i8), (1i8, 0i8), (0i8, 0i8), (0i8, 0i8), (0i8, 0i8)]
    } else if idx == 10 {
        seq![(0i8, 0i8), (0i8, 1i8), (0i8, 0i8), (0i8, 0i8), (0i8, 0i8)]
    } else {
        seq![(0i8, 0i8), (-1i8, 0i8), (0i8, 0i8), (0i8, 0i8), (0i8, 0i8)]
    }
}

/// Kick row used by family `t` for shape `m` on rotation pair index `idx`.
pub open spec fn spec_kick_row(t: KickTable, m: Mino, idx: int) -> Seq<(i8, i8)> {
    if m == Mino::I {
        match t {
            KickTable::SRS => spec_srs_i_kicks(idx),
            KickTable::SRSPlus => spec_srs_plus_i_kicks(idx),
        }
    } else {
        spec_std_kicks(idx)
    }
}

/// Raw kick rows of one family: the shared rows and the I-shape rows.
pub struct KickData {
    pub standard: [[(i8, i8); 5]; 12],
    pub i: [[(i8, i8); 5]; 12],
}

impl KickTable {
    /// Table index of the rotation pair `from -> to`.
    pub fn get_index(from: u8, to: u8) -> (r: usize)
        requires
            from < 4,
            to < 4,
            from != to,
        ensures
            r == spec_kick_index(from as int, to as int),
            r < 12,
    {
        if from == 0 && to == 1 {
            0
        } else if from == 1 && to == 0 {
            1
        } else if from == 1 && to == 2 {
            2
        } else if from == 2 && to == 1 {
            3
        } else if from == 2 && to == 3 {
            4
        } else if from == 3 && to == 2 {
            5
        } else if from == 3 && to == 0 {
            6
        } else if from == 0 && to == 3 {
            7
        } else if from == 0 && to == 2 {
            8
        } else if from == 1 && to == 3 {
            9
        } else if from == 2 && to == 0 {
            10
        } else {
            11
        }
    }

    /// The ordered kick candidates this family tries for shape `mino` when it
    /// rotates from `from` to `to`.
    pub fn data(&self, mino: Mino, from: u8, to: u8) -> (r: [(i8, i8); 5])
        requires
            from < 4,
            to < 4,
            from != to,
        ensures
            r@ == spec_kick_row(*self, mino, spec_kick_index(from as int, to as int)),
    {
        let idx = KickTable::get_index(from, to);
        match mino {
            Mino::I => match self {
                KickTable::SRS => srs_i_row(idx),
                KickTable::SRSPlus => srs_plus_i_row(idx),
            },
            _ => std_row(idx),
        }
    }
}

fn std_row(idx: usize) -> (r: [(i8, i8); 5])
    requires
        idx < 12,
    ensures
        r@ == spec_std_kicks(idx as int),
{
    let r = if idx == 0 {
        [(0i8, 0i8), (-1i8, 0i8), (-1i8, -1i8), (0i8, 2i8), (-1i8, 2i8)]
    } else if idx == 1 {
        [(0i8, 0i8), (1i8, 0i8), (1i8, 1i8), (0i8, -2i8), (1i8, -2i8)]
    } else if idx == 2 {
        [(0i8, 0i8), (1i8, 0i8), (1i8, 1i8), (0i8, -2i8), (1i8, -2i8)]
    } else if idx == 3 {
        [(0i8, 0i8), (-1i8, 0i8), (-1i8, -1i8), (0i8, 2i8), (-1i8, 2i8)]
    } else if idx == 4 {
        [(0i8, 0i8), (1i8, 0i8), (1i8, -1i8), (0i8, 2i8), (1i8, 2i8)]
    } else if idx == 5 {
        [(0i8, 0i8), (-1i8, 0i8), (-1i8, 1i8), (0i8, -2i8), (-1i8, -2i8)]
    } else if idx == 6 {
        [(0i8, 0i8), (-1i8, 0i8), (-1i8, 1i8), (0i8, -2i8), (-1i8, -2i8)]
    } else if idx == 7 {
        [(0i8, 0i8), (1i8, 0i8), (1i8, -1i8), (0i8, 2i8), (1i8, 2i8)]
    } else if idx == 8 {
        [(0i8, -1i8), (1i8, -1i8), (-1i8, -1i8), (1i8, 0i8), (-1i8, 0i8)]
    } else if idx == 9 {
        [(1i8, 0i8), (1i8, -2i8), (1i8, -1i8), (0i8, -2i8), (0i8, -1i8)]
    } else if idx == 10 {
        [(0i8, 1i8), (-1i8, 1i8), (1i8, 1i8), (-1i8, 0i8), (1i8, 0i8)]
    } else {
        [(-1i8, 0i8), (-1i8, -2i8), (-1i8, -1i8), (0i8, -2i8), (0i8, -1i8)]
    };
    proof {
        assert(r@ =~= spec_std_kicks(idx as int));
    }
    r
}

fn srs_i_row(idx: usize) -> (r: [(i8, i8); 5])
    requires
        idx < 12,
    ensures
        r@ == spec_srs_i_kicks(idx as int),
{
    let r = if idx == 0 {
        [(0i8, 0i8), (-2i8, 0i8), (1i8, 0i8), (-2i8, 1i8), (1i8, -2i8)]
    } else if idx == 1 {
        [(0i8, 0i8), (2i8, 0i8), (-1i8, 0i8), (2i8, -1i8), (-1i8, 2i8)]
    } else if idx == 2 {
        [(0i8, 0i8), (-1i8, 0i8), (2i8, 0i8), (-1i8, -2i8), (2i8, 1i8)]
    } else if idx == 3 {
        [(0i8, 0i8), (1i8, 0i8), (-2i8, 0i8), (1i8, 2i8), (-2i8, -1i8)]
    } else if idx == 4 {
        [(0i8, 0i8), (2i8, 0i8), (-1i8, 0i8), (2i8, -1i8), (-1i8, 2i8)]
    } else if idx == 5 {
        [(0i8, 0i8), (-2i8, 0i8), (1i8, 0i8), (-2i8, 1i8), (1i8, -2i8)]
    } else if idx == 6 {
        [(0i8, 0i8), (1i8, 0i8), (-2i8, 0i8), (1i8, 2i8), (-2i8, -1i8)]
    } else if idx == 7 {
        [(0i8, 0i8), (-1i8, 0i8), (2i8, 0i8), (-1i8, -2i8), (2i8, 1i8)]
    } else {
        [(0i8, 0i8), (0i8, 0i8), (0i8, 0i8), (0i8, 0i8), (0i8, 0i8)]
    };
    proof {
        assert(r@ =~= spec_srs_i_kicks(idx as int));
    }
    r
}

fn srs_plus_i_row(idx: usize) -> (r: [(i8, i8); 5])
    requires
        idx < 12,
    ensures
        r@ == spec_srs_plus_i_kicks(idx as int),
{
    let r = if idx == 0 {
        [(0i8, 0i8), (1i8, 0i8), (-2i8, 0i8), (-2i8, 1i8), (1i8, -2i8)]
    } else if idx == 1 {
        [(0i8, 0i8), (-1i8, 0i8), (2i8, 0i8), (-1i8, 2i8), (2i8, -1i8)]
    } else if idx == 2 {
        [(0i8, 0i8), (-1i8, 0i8), (2i8, 0i8), (-1i8, -2i8), (2i8, 1i8)]
    } else if idx == 3 {
        [(0i8, 0i8), (-2i8, 0i8), (1i8, 0i8), (-2i8, -1i8), (1i8, 2i8)]
    } else if idx == 4 {
        [(0i8, 0i8), (2i8, 0i8), (-1i8, 0i8), (2i8, -1i8), (-1i8, 2i8)]
    } else if idx == 5 {
        [(0i8, 0i8), (1i8, 0i8), (-2i8, 0i8), (1i8, -2i8), (-2i8, 1i8)]
    } else if idx == 6 {
        [(0i8, 0i8), (1i8, 0i8), (-2i8, 0i8), (1i8, 2i8), (-2i8, -1i8)]
    } else if idx == 7 {
        [(0i8, 0i8), (-1i8, 0i8), (2i8, 0i8), (2i8, 1i8), (-1i8, -2i8)]
    } else if idx == 8 {
        [(0i8, 0i8), (0i8, -1i8), (0i8, 0i8), (0i8, 0i8), (0i8, 0i8)]
    } else if idx == 9 {
        [(0i8, 0i8), (1i8, 0i8), (0i8, 0i8), (0i8, 0i8), (0i8, 0i8)]
    } else if idx == 10 {
        [(0i8, 0i8), (0i8, 1i8), (0i8, 0i8), (0i8, 0i8), (0i8, 0i8)]
    } else {
        [(0i8, 0i8), (-1i8, 0i8), (0i8, 0i8), (0i8, 0i8), (0i8, 0i8)]
    };
    proof {
        assert(r@ =~= spec_srs_plus_i_kicks(idx as int));
    }
    r
}

/// Damage bonus of combo step `c` (zero-based) in table `t`; the last entry
/// repeats for deeper combos.  Not defined for the multiplier table.
pub open spec fn spec_combo_value(t: ComboTable, c: int) -> u8 {
    let s = spec_combo_seq(t);
    if c < 0 {
        s[0]
    } else if c < s.len() {
        s[c]
    } else {
        s[s.len() - 1]
    }
}

/// The additive combo tables.
pub open spec fn spec_combo_seq(t: ComboTable) -> Seq<u8> {
    match t {
        ComboTable::Off => seq![0u8],
        ComboTable::Classic => seq![0u8, 1u8, 1u8, 2u8, 2u8, 3u8, 3u8, 4u8, 4u8, 4u8, 5u8],
        ComboTable::Modern => seq![
            0u8,
            1u8,
            1u8,
            2u8,
            2u8,
            2u8,
            3u8,
            3u8,
            3u8,
            3u8,
            3u8,
            3u8,
            4u8,
        ],
        ComboTable::Multiplier => seq![0u8],
    }
}

impl ComboTable {
    /// The additive bonus entries of this table.
    pub fn get(&self) -> (r: Vec<u8>)
        requires
            *self != ComboTable::Multiplier,
        ensures
            r@ == spec_combo_seq(*self),
            r@.len() >= 1,
    {
        let r: Vec<u8> = match self {
            ComboTable::Off => vec![0u8],
            ComboTable::Classic => vec![0u8, 1u8, 1u8, 2u8, 2u8, 3u8, 3u8, 4u8, 4u8, 4u8, 5u8],
            ComboTable::Modern => vec![
                0u8,
                1u8,
                1u8,
                2u8,
                2u8,
                2u8,
                3u8,
                3u8,
                3u8,
                3u8,
                3u8,
                3u8,
                4u8,
            ],
            ComboTable::Multiplier => vec![0u8],
        };
        proof {
            assert(r@ =~= spec_combo_seq(*self));
        }
        r
    }
}

impl Move {
    /// Lower-case display name of the move.
    pub fn str(&self) -> (r: &'static str)
        ensures
            *self == Move::HardDrop ==> r@ == "hard drop"@,
    {
        match self {
            Move::Idle => "none",
            Move::Left => "left",
            Move::Right => "right",
            Move::SoftDrop => "soft drop",
            Move::CCW => "ccw",
            Move::CW => "cw",
            Move::Flip => "180",
            Move::DasLeft => "das left",
            Move::DasRight => "das right",
            Move::Hold => "hold",
            Move::HardDrop => "hard drop",
        }
    }

    /// Wire name of the move in the host protocol.
    pub fn triangle_key(&self) -> (r: &'static str)
        requires
            *self != Move::Idle,
        ensures
            *self == Move::Left ==> r@ == "moveLeft"@,
            *self == Move::Right ==> r@ == "moveRight"@,
            *self == Move::SoftDrop ==> r@ == "softDrop"@,
            *self == Move::CCW ==> r@ == "rotateCCW"@,
            *self == Move::CW ==> r@ == "rotateCW"@,
            *self == Move::Flip ==> r@ == "rotate180"@,
            *self == Move::DasLeft ==> r@ == "dasLeft"@,
            *self == Move::DasRight ==> r@ == "dasRight"@,
            *self == Move::Hold ==> r@ == "hold"@,
            *self == Move::HardDrop ==> r@ == "hardDrop"@,
    {
        match self {
            Move::Idle => "moveLeft",
            Move::Left => "moveLeft",
            Move::Right => "moveRight",
            Move::SoftDrop => "softDrop",
            Move::CCW => "rotateCCW",
            Move::CW => "rotateCW",
            Move::Flip => "rotate180",
            Move::DasLeft => "dasLeft",
            Move::DasRight => "dasRight",
            Move::Hold => "hold",
            Move::HardDrop => "hardDrop",
        }
    }
}

} // verus!
