use four_in_a_row::board::Board;
use four_in_a_row::piece::Piece;
use four_in_a_row::player::Player;
use four_in_a_row::round::{Play, RoundStart, Start};
use std::str::FromStr;

#[test]
fn test_macros() {
    assert_eq!(Player::from_str("r").unwrap(), Player::Red);
    assert_eq!(Player::from_str("y").unwrap(), Player::Yellow);
}

#[test]
fn check_piece() {
    assert_eq!(Piece(None), Piece(None));
    assert_eq!(Piece(Some(Player::from_str("r").unwrap())), Piece(Some(Player::Red)));
    assert_eq!(Piece(Some(Player::from_str("y").unwrap())), Piece(Some(Player::Yellow)));
}

#[test]
fn player_from_str_rejects_other_text() {
    assert!(Player::from_str("x").is_err());
    assert!(Player::from_str("").is_err());
    assert!(Player::from_str("red").is_err());
}

#[test]
fn test_start_state() {
    let game_start = RoundStart::new();
    assert_eq!(game_start.state, Start::default());
    assert_eq!(game_start.board, Board::default());
}

#[test]
fn start_game_keeps_the_board() {
    let mut start = RoundStart::new();
    start.board.play(Player::Red, 2).unwrap();
    let board_before = start.board;
    let playing = start.start_game();
    assert_eq!(playing.state, Play);
    assert_eq!(*playing.get_board(), board_before);
}
