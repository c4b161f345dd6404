//! The round lifecycle typestate: a round is created in the start phase
//! and handed to the play phase with its board.

use vstd::prelude::*;

use crate::board::{Board, BoardView};
use crate::game::GameTrait;

verus! {

/// The start phase of a round.
#[derive(Debug, Clone, Copy, Default, PartialEq, Eq)]
pub struct Start;

impl GameTrait for Start {

}

/// The play phase of a round.
#[derive(Debug, Clone, Copy, Default, PartialEq, Eq)]
pub struct Play;

impl GameTrait for Play {

}

/// A round in phase `T`, holding the board it is played on.
pub struct RoundAPI<T: GameTrait> {
    pub state: T,
    pub board: Board,
}

impl<T: GameTrait> RoundAPI<T> {
    /// The board of the round.
    pub fn get_board(&self) -> (b: &Board)
        ensures
            b@ == self.board@,
    {
        &self.board
    }
}

/// A round that has not been started yet.
pub type RoundStart = RoundAPI<Start>;

impl Default for RoundAPI<Start> {
    /// A fresh round on the empty board.
    fn default() -> (s: RoundAPI<Start>)
        ensures
            s.board@ == BoardView::empty(),
            s.state == Start,
    {
        RoundAPI { board: Board::default(), state: Start }
    }
}

impl RoundStart {
    /// A fresh round on the empty board.
    pub fn new() -> (s: RoundStart)
        ensures
            s.board@ == BoardView::empty(),
            s.state == Start,
    {
        Self::default()
    }

    /// Moves the round into the play phase, keeping its board.
    pub fn start_game(self) -> (p: RoundAPI<Play>)
        ensures
            p.board == self.board,
            p.state == Play,
    {
        RoundAPI { board: self.board, state: Play }
    }
}

} // verus!
