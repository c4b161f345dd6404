use four_in_a_row::board::{Board, IllegalMove};
use four_in_a_row::board::to_position;
use four_in_a_row::board::{GamePlay, TerminatedStatus};
use four_in_a_row::game::{GameState, Start};
use four_in_a_row::player::Player;

#[test]
fn scenario_a_empty_board_legal_play() {
    let mut board = Board::default();
    assert_eq!(board.play(Player::Red, 3), Ok(0));
    let cells = board.cells();
    assert_eq!(cells[3 * 8], four_in_a_row::piece::Piece(Some(Player::Red)));
    for (i, cell) in cells.iter().enumerate() {
        if i != 3 * 8 {
            assert!(cell.0.is_none());
        }
    }
    assert!(!board.check_win(0, 3, Player::Red));
}

#[test]
fn scenario_b_column_stacking() {
    let mut board = Board::default();
    for i in 0..4u8 {
        assert_eq!(board.play(Player::Red, 2), Ok(i));
    }
    for i in 4..8u8 {
        assert_eq!(board.play(Player::Yellow, 2), Ok(i));
    }
    let cells = board.cells();
    for r in 0..4u8 {
        assert_eq!(cells[to_position(2, r)].0, Some(Player::Red));
    }
    for r in 4..8u8 {
        assert_eq!(cells[to_position(2, r)].0, Some(Player::Yellow));
    }
    assert_eq!(board.play(Player::Red, 2), Err(IllegalMove::StackIsFull));
}

#[test]
fn scenario_c_horizontal_win() {
    let mut board = Board::default();
    for col in [2, 3, 4] {
        assert_eq!(board.play(Player::Red, col), Ok(0));
    }
    assert_eq!(board.play(Player::Red, 5), Ok(0));
    assert!(board.check_win(0, 5, Player::Red));
    assert!(!board.check_win(0, 5, Player::Yellow));
}

#[test]
fn scenario_d_vertical_win() {
    let mut board = Board::default();
    for r in 0..4u8 {
        assert_eq!(board.play(Player::Red, 5), Ok(r));
    }
    assert!(board.check_win(3, 5, Player::Red));
    // any row of the column names the same line, so each detects the run
    for r in 0..8u8 {
        assert!(board.check_win(r, 5, Player::Red));
        assert!(!board.check_win(r, 5, Player::Yellow));
    }
}

#[test]
fn scenario_e_diagonal_win() {
    let mut board = Board::default();
    // Yellow builds a run on the anti-diagonal row + col == 6:
    // (row 0, col 6), (row 1, col 5), (row 2, col 4), (row 3, col 3),
    // with Red filler pieces below each Yellow one.
    assert_eq!(board.play(Player::Yellow, 6), Ok(0));
    assert_eq!(board.play(Player::Red, 5), Ok(0));
    assert_eq!(board.play(Player::Yellow, 5), Ok(1));
    assert_eq!(board.play(Player::Red, 4), Ok(0));
    assert_eq!(board.play(Player::Red, 4), Ok(1));
    assert_eq!(board.play(Player::Yellow, 4), Ok(2));
    assert_eq!(board.play(Player::Red, 3), Ok(0));
    assert_eq!(board.play(Player::Red, 3), Ok(1));
    assert_eq!(board.play(Player::Red, 3), Ok(2));
    assert_eq!(board.play(Player::Yellow, 3), Ok(3));
    for (row, col) in [(0, 6), (1, 5), (2, 4), (3, 3)] {
        assert!(board.check_win(row, col, Player::Yellow), "row {row} col {col}");
        assert!(!board.check_win(row, col, Player::Red), "row {row} col {col}");
    }
}

#[test]
fn scenario_f_out_of_bounds() {
    let mut board = Board::default();
    let before = board;
    assert_eq!(board.play(Player::Red, 8), Err(IllegalMove::OutOfBounds));
    assert_eq!(board.play(Player::Red, 255), Err(IllegalMove::OutOfBounds));
    assert_eq!(board, before);
    assert!(board.cells().iter().all(|c| c.0.is_none()));
}

#[test]
fn empty_board_has_no_win_anywhere() {
    let board = Board::default();
    for r in 0..8u8 {
        for c in 0..8u8 {
            assert!(!board.check_win(r, c, Player::Red));
            assert!(!board.check_win(r, c, Player::Yellow));
        }
    }
}

#[test]
fn play_lands_at_row_zero_in_every_column() {
    for col in 0..8u8 {
        let mut board = Board::default();
        assert_eq!(board.play(Player::Yellow, col), Ok(0));
        let cells = board.cells();
        for c in 0..8u8 {
            for r in 0..8u8 {
                let expected = if c == col && r == 0 {
                    Some(Player::Yellow)
                } else {
                    None
                };
                assert_eq!(cells[to_position(c, r)].0, expected);
            }
        }
    }
}

#[test]
fn out_of_bounds_never_mutates() {
    for col in [8u8, 9, 17, 100, 254, 255] {
        let mut board = Board::default();
        board.play(Player::Red, 3).unwrap();
        let before = board;
        assert_eq!(board.play(Player::Red, col), Err(IllegalMove::OutOfBounds));
        assert_eq!(board, before);
    }
}

#[test]
fn from_parts_builds_the_requested_board() {
    // bottom row holds Red at columns 2..=5, nothing else anywhere
    let fill = [0u8, 0, 1, 1, 1, 1, 0, 0];
    let mask = (1u64 << 16) | (1u64 << 24) | (1u64 << 32) | (1u64 << 40);
    let board = Board::from_parts(mask, &fill);
    let cells = board.cells();
    for c in 0..8u8 {
        for r in 0..8u8 {
            let expected = if r == 0 && (2..=5).contains(&c) {
                Some(Player::Red)
            } else {
                None
            };
            assert_eq!(cells[to_position(c, r)].0, expected);
        }
    }
    assert!(board.check_win(0, 3, Player::Red));
    assert!(!board.check_win(0, 3, Player::Yellow));
}

#[test]
fn from_parts_mask_decides_ownership() {
    // one piece at the bottom of column 0, not in the mask: it is Yellow
    let fill = [1u8, 0, 0, 0, 0, 0, 0, 0];
    let board = Board::from_parts(0, &fill);
    assert_eq!(board.cells()[0].0, Some(Player::Yellow));
}

#[test]
fn render_empty_board() {
    let board = Board::default();
    let expected = "| | | | | | | | |\n".repeat(8);
    assert_eq!(board.render(), expected);
}

#[test]
fn render_marks_played_cells() {
    let mut board = Board::default();
    board.play(Player::Red, 3).unwrap();
    let mut expected = "| | | | | | | | |\n".repeat(7);
    expected.push_str("| | | |*| | | | |\n");
    assert_eq!(board.render(), expected);
}

#[test]
fn game_state_valid_and_invalid_plays() {
    let mut game: GameState<Start> = Default::default();
    assert_eq!(game.play(3), GamePlay::ValidPlay);
    assert_eq!(game.play(8), GamePlay::InvalidBoard(IllegalMove::OutOfBounds));
    assert_eq!(game.play(255), GamePlay::InvalidBoard(IllegalMove::OutOfBounds));
}

#[test]
fn game_state_vertical_win_latches() {
    let mut game: GameState<Start> = Default::default();
    // Red stacks column 0, Yellow column 1
    assert_eq!(game.play(0), GamePlay::ValidPlay);
    assert_eq!(game.play(1), GamePlay::ValidPlay);
    assert_eq!(game.play(0), GamePlay::ValidPlay);
    assert_eq!(game.play(1), GamePlay::ValidPlay);
    assert_eq!(game.play(0), GamePlay::ValidPlay);
    assert_eq!(game.play(1), GamePlay::ValidPlay);
    assert_eq!(
        game.play(0),
        GamePlay::GameTerminated(TerminatedStatus::Win(Player::Red))
    );
    // the terminal status is kept for later plays
    assert_eq!(
        game.play(4),
        GamePlay::GameTerminated(TerminatedStatus::Win(Player::Red))
    );
}

#[test]
fn game_state_full_column_is_rejected() {
    let mut game: GameState<Start> = Default::default();
    // the two players alternate into column 0, so it fills with no run of
    // four; the ninth drop must be rejected and reported
    for _ in 0..8 {
        assert_eq!(game.play(0), GamePlay::ValidPlay);
    }
    assert_eq!(game.play(0), GamePlay::InvalidBoard(IllegalMove::StackIsFull));
    // a rejected move does not end the game
    assert_eq!(game.play(1), GamePlay::ValidPlay);
}
