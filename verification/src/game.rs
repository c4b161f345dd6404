//! The outer game state machine: phase typestate, turn alternation, and
//! classification of each play's outcome.

use vstd::prelude::*;

use crate::board::{win_at, Board, BoardView, GamePlay, IllegalMove, TerminatedStatus};
use crate::player::Player;

verus! {

/// The selected game mode, chosen before the game starts.
#[derive(Debug, Default)]
pub enum GameMode {
    #[default]
    NotSet,
    PVP,
    PVE,
}

/// Marker trait for the phase types of the game state machine.
pub trait GameTrait {

}

/// The start phase, carrying the chosen mode.
pub struct Start(#[allow(dead_code)] pub GameMode);

/// The phase in which moves are played.
pub struct Play;

/// The phase after the game has terminated.
pub struct End;

impl GameTrait for Start {

}

impl GameTrait for Play {

}

impl GameTrait for End {

}

/// The game state: the board, whose turn it is, the phase value, and the
/// terminal status once one is reached.
pub struct GameState<T: GameTrait> {
    board: Board,
    current_player: Player,
    #[allow(dead_code)]
    state: T,
    terminated: Option<TerminatedStatus>,
}

impl<T: GameTrait> GameState<T> {
    /// The board inside the state.
    pub closed spec fn spec_board(&self) -> BoardView {
        self.board@
    }

    /// The player whose turn it is.
    pub closed spec fn spec_player(&self) -> Player {
        self.current_player
    }

    /// The terminal status, once the game has ended.
    pub closed spec fn spec_terminated(&self) -> Option<TerminatedStatus> {
        self.terminated
    }

    /// The state is well-formed when its board is.
    pub open spec fn wf(&self) -> bool {
        self.spec_board().wf()
    }
}

impl GameState<Start> {
    #[allow(dead_code)]
    fn new(board: Board) -> (s: GameState<Start>)
        ensures
            s.spec_board() == board@,
            s.spec_player() == Player::Red,
            s.spec_terminated() is None,
    {
        GameState {
            board,
            current_player: Player::Red,
            state: Start(GameMode::NotSet),
            terminated: None,
        }
    }

    /// The board of the game.
    pub fn get_board(&self) -> (b: &Board)
        ensures
            b@ == self.spec_board(),
    {
        &self.board
    }

    /// Inserts the current player's piece at `column` and flips the turn.
    /// An illegal move changes nothing; a winning move, or one that fills
    /// the board, records the terminal status, which later plays return
    /// unchanged.
    pub fn play(&mut self, column: u8) -> (outcome: GamePlay)
        requires
            old(self).wf(),
        ensures
            final(self).wf(),
            0 <= old(self).spec_board().height(column as int) <= 8,
            ({
                let pre = *old(self);
                let post = *final(self);
                match pre.spec_terminated() {
                    Some(st) => outcome == GamePlay::GameTerminated(st) && post.spec_board()
                        == pre.spec_board() && post.spec_player() == pre.spec_player()
                        && post.spec_terminated() == pre.spec_terminated(),
                    None => if column >= 8 {
                        outcome == GamePlay::InvalidBoard(IllegalMove::OutOfBounds)
                            && post.spec_board() == pre.spec_board() && post.spec_player()
                            == pre.spec_player() && post.spec_terminated() is None
                    } else if pre.spec_board().height(column as int) == 8 {
                        outcome == GamePlay::InvalidBoard(IllegalMove::StackIsFull)
                            && post.spec_board() == pre.spec_board() && post.spec_player()
                            == pre.spec_player() && post.spec_terminated() is None
                    } else {
                        let p = pre.spec_player();
                        let h = pre.spec_board().height(column as int);
                        let nb = pre.spec_board().place(p, column as int, h);
                        post.spec_board() == nb && post.spec_player() == p.spec_other() && (
                        if win_at(nb.owner_bits(p), h, column as int) {
                            post.spec_terminated() == Some(TerminatedStatus::Win(p)) && outcome
                                == GamePlay::GameTerminated(TerminatedStatus::Win(p))
                        } else if nb.bits() == 0xFFFF_FFFF_FFFF_FFFFu64 {
                            post.spec_terminated() == Some(TerminatedStatus::Draw) && outcome
                                == GamePlay::GameTerminated(TerminatedStatus::Draw)
                        } else {
                            post.spec_terminated() is None && outcome == GamePlay::ValidPlay
                        })
                    },
                }
            }),
    {
        proof {
            crate::board::lemma_height_bounds(old(self).spec_board(), column as int);
        }
        if let Some(st) = self.terminated {
            return GamePlay::GameTerminated(st);
        }
        let p = self.current_player;
        let res = self.board.play(p, column);
        match res {
            Err(e) => GamePlay::InvalidBoard(e),
            Ok(row) => {
                self.current_player = p.other();
                if self.board.check_win(row, column, p) {
                    self.terminated = Some(TerminatedStatus::Win(p));
                    GamePlay::GameTerminated(TerminatedStatus::Win(p))
                } else if self.board.is_full() {
                    self.terminated = Some(TerminatedStatus::Draw);
                    GamePlay::GameTerminated(TerminatedStatus::Draw)
                } else {
                    GamePlay::ValidPlay
                }
            },
        }
    }
}

impl Default for GameState<Start> {
    /// A fresh game: empty board, Red to move, mode not set.
    fn default() -> (s: GameState<Start>)
        ensures
            s.spec_board() == BoardView::empty(),
            s.spec_player() == Player::Red,
            s.spec_terminated() is None,
    {
        GameState {
            board: Board::default(),
            current_player: Player::Red,
            state: Start(GameMode::NotSet),
            terminated: None,
        }
    }
}


} // verus!
