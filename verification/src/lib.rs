//! Move-selection engine for a guideline-style falling-block puzzle game.
//!
//! The engine keeps a bit-packed ten-column board, precomputes a per-rotation
//! collision field, enumerates every landable pose of the falling piece, and
//! runs a width-bounded beam search over placements.  A key-path reconstructor
//! turns a chosen pose back into the input sequence that reaches it.
use vstd::prelude::*;

pub mod bits;
pub mod board;
pub mod collision;
pub mod compressor;
pub mod damage;
pub mod data;
pub mod eval;
pub mod expand;
pub mod game;
pub mod keyfinder;
pub mod queue;
pub mod rng;
pub mod search;

verus! {

/// Number of columns of the playfield.
pub const BOARD_WIDTH: usize = 10;

/// Number of usable rows of each 64-bit column; rows above are never filled.
pub const BOARD_HEIGHT: usize = 40;

/// Rows of the spawn buffer above the visible playfield.
pub const BOARD_BUFFER: usize = 20;

/// Width of the collision field: one sentinel column on each side of the board.
pub const FIELD_WIDTH: usize = 12;

} // verus!
