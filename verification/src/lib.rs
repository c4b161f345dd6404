//! Rules engine for a two-player, gravity-fed, 8x8 four-in-a-row board game.
//!
//! The board is kept as two 64-bit bitboards, one per player, where bit
//! `col * 8 + row` is the cell at `(col, row)` and row 0 is the bottom of a
//! column.  Moves are applied with [`board::Board::play`] and wins are
//! detected with [`board::Board::check_win`].

use vstd::prelude::*;

pub mod board;
pub mod display;
pub mod game;
pub mod masks;
pub mod piece;
pub mod player;
pub mod round;

verus! {

/// Number of cells on the board.
pub const BOARD_SIZE: usize = 64;

/// Number of columns.
pub const WIDTH: usize = 8;

/// Number of rows.
pub const HEIGHT: usize = 8;

} // verus!
