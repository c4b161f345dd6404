//! The occupancy value of a single cell.

use vstd::prelude::*;

use crate::player::Player;

verus! {

/// A cell is either empty (`Piece(None)`) or owned by one player.
///
/// Pieces only appear in the cell-array projection and in tests; the live
/// board stores occupancy as bits.
#[derive(Debug, Clone, Copy, PartialEq, Eq, Hash)]
pub struct Piece(pub Option<Player>);

} // verus!
