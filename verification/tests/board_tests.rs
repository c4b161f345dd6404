use four_in_a_row::board::{Board, IllegalMove};
use four_in_a_row::board::to_position;
use four_in_a_row::piece::Piece;
use four_in_a_row::player::Player;
use rand::rngs::StdRng;
use rand::{Rng, SeedableRng};

fn random_player() -> Player {
    if rand::thread_rng().gen::<bool>() {
        Player::Red
    } else {
        Player::Yellow
    }
}

#[test]
fn create_empty_board_array() {
    let board = Board::default();
    assert!(board.cells().iter().all(|el| el.0.is_none()))
}

#[test]
fn test_display_random() {
    let mut rng = StdRng::seed_from_u64(53);
    let board = Board::from_rng(&mut rng);
    println!("{}", board.render());
}

#[test]
fn check_from_string() {
    let board = Board::default();
    println!("{}", board.render())
}

#[test]
fn play_empty_board() {
    let mut board = Board::default();
    let mut rng = rand::thread_rng();

    assert_eq!(
        board
            .play(Player::Red, rng.gen_range(0..=7))
            .expect("Should work for empty boards"),
        0
    );
}

#[test]
fn seed31_test_col_0() {
    let mut board = Board::from_rng(&mut StdRng::seed_from_u64(31));
    let mut original_array = board.cells();
    original_array[to_position(0, 5)] = Piece(Some(Player::Red));
    let row = board.play(Player::Red, 0).unwrap();
    assert_eq!(5, row);
    assert!(original_array
        .iter()
        .zip(board.cells().iter())
        .all(|(el_org, el_after)| el_org == el_after));
}

#[test]
fn seed31_test_col_1() {
    let mut board = Board::from_rng(&mut StdRng::seed_from_u64(31));
    let mut original_array = board.cells();
    original_array[to_position(1, 1)] = Piece(Some(Player::Red));
    let row = board.play(Player::Red, 1).unwrap();
    assert_eq!(1, row);
    assert!(original_array
        .iter()
        .zip(board.cells().iter())
        .all(|(el_org, el_after)| el_org == el_after));
}

#[test]
fn test_col_4() {
    let mut board = Board::from_rng(&mut StdRng::seed_from_u64(31));
    let mut original_array = board.cells();
    original_array[to_position(4, 0)] = Piece(Some(Player::Red));
    let row = board.play(Player::Red, 4).unwrap();
    assert_eq!(0, row);
    assert!(original_array
        .iter()
        .zip(board.cells().iter())
        .all(|(el_org, el_after)| el_org == el_after));
}

#[test]
fn seed31_test_col_5() {
    let mut board = Board::from_rng(&mut StdRng::seed_from_u64(31));
    let mut original_array = board.cells();
    original_array[to_position(5, 7)] = Piece(Some(Player::Red));
    let row = board.play(Player::Red, 5).unwrap();
    assert_eq!(7, row);
    assert!(original_array
        .iter()
        .zip(board.cells().iter())
        .all(|(el_org, el_after)| el_org == el_after));
}

#[test]
fn seed32_test_col_0() {
    let mut board = Board::from_rng(&mut StdRng::seed_from_u64(32));
    let mut original_array = board.cells();
    original_array[to_position(0, 0)] = Piece(Some(Player::Yellow));
    let row = board.play(Player::Yellow, 0).unwrap();
    assert_eq!(0, row);
    assert!(original_array
        .iter()
        .zip(board.cells().iter())
        .all(|(el_org, el_after)| el_org == el_after));
}

#[test]
fn seed32_test_col_2() {
    let mut board = Board::from_rng(&mut StdRng::seed_from_u64(32));
    let mut original_array = board.cells();
    original_array[to_position(2, 5)] = Piece(Some(Player::Yellow));
    let row = board.play(Player::Yellow, 2).unwrap();
    assert_eq!(5, row);
    assert!(original_array
        .iter()
        .zip(board.cells().iter())
        .all(|(el_org, el_after)| el_org == el_after));
}

#[test]
fn seed32_test_col_3() {
    let mut board = Board::from_rng(&mut StdRng::seed_from_u64(32));
    let mut original_array = board.cells();
    original_array[to_position(3, 0)] = Piece(Some(Player::Yellow));
    let row = board.play(Player::Yellow, 3).unwrap();
    assert_eq!(0, row);
    assert!(original_array
        .iter()
        .zip(board.cells().iter())
        .all(|(el_org, el_after)| el_org == el_after));
}

#[test]
fn seed32_test_col_5() {
    let mut board = Board::from_rng(&mut StdRng::seed_from_u64(32));
    let mut original_array = board.cells();
    original_array[to_position(5, 6)] = Piece(Some(Player::Yellow));
    let row = board.play(Player::Yellow, 5).unwrap();
    assert_eq!(6, row);
    assert!(original_array
        .iter()
        .zip(board.cells().iter())
        .all(|(el_org, el_after)| el_org == el_after));
}

#[test]
fn seed231_test_col_0() {
    let mut board = Board::from_rng(&mut StdRng::seed_from_u64(231));
    let mut original_array = board.cells();
    let player: Player = random_player();
    original_array[to_position(0, 1)] = Piece(Some(player));
    let row = board.play(player, 0).unwrap();
    assert_eq!(1, row);
    assert!(original_array
        .iter()
        .zip(board.cells().iter())
        .all(|(el_org, el_after)| el_org == el_after));
}

#[test]
fn seed231_test_col_2() {
    let mut board = Board::from_rng(&mut StdRng::seed_from_u64(231));
    let mut original_array = board.cells();
    let player: Player = random_player();
    original_array[to_position(2, 1)] = Piece(Some(player));
    let row = board.play(player, 2).unwrap();
    assert_eq!(1, row);
    assert!(original_array
        .iter()
        .zip(board.cells().iter())
        .all(|(el_org, el_after)| el_org == el_after));
}

#[test]
fn seed231_test_col_3() {
    let mut board = Board::from_rng(&mut StdRng::seed_from_u64(231));
    let arr = board.cells();
    let player: Player = random_player();
    let err = board.play(player, 3).unwrap_err();
    assert_eq!(IllegalMove::StackIsFull, err);
    // Should not affect stack
    assert!(arr.iter().zip(board.cells().iter()).all(|(a, b)| a == b));
}

#[test]
fn test_col_6() {
    let mut board = Board::from_rng(&mut StdRng::seed_from_u64(231));
    let mut original_array = board.cells();
    let player: Player = random_player();
    original_array[to_position(6, 0)] = Piece(Some(player));
    let row = board.play(player, 6).unwrap();
    assert_eq!(0, row);
    assert!(original_array
        .iter()
        .zip(board.cells().iter())
        .all(|(el_org, el_after)| el_org == el_after));
}

#[test]
fn seed122_test_col_0() {
    let mut board = Board::from_rng(&mut StdRng::seed_from_u64(122));
    let original_array = board.cells();
    let player: Player = random_player();
    let row = board.play(player, 0).unwrap_err();
    assert_eq!(IllegalMove::StackIsFull, row);
    assert!(original_array
        .iter()
        .zip(board.cells().iter())
        .all(|(el_org, el_after)| el_org == el_after));
}

#[test]
fn seed122_test_col_1() {
    let mut board = Board::from_rng(&mut StdRng::seed_from_u64(122));
    let original_array = board.cells();
    let player: Player = random_player();
    let row = board.play(player, 1).unwrap_err();
    assert_eq!(IllegalMove::StackIsFull, row);
    assert!(original_array
        .iter()
        .zip(board.cells().iter())
        .all(|(el_org, el_after)| el_org == el_after));
}

#[test]
fn seed122_test_col_5() {
    let mut board = Board::from_rng(&mut StdRng::seed_from_u64(122));
    let original_array = board.cells();
    let player: Player = random_player();
    let row = board.play(player, 5).unwrap_err();
    assert_eq!(IllegalMove::StackIsFull, row);
    assert!(original_array
        .iter()
        .zip(board.cells().iter())
        .all(|(el_org, el_after)| el_org == el_after));
}

#[test]
fn test_col_7() {
    let mut board = Board::from_rng(&mut StdRng::seed_from_u64(122));
    let mut original_array = board.cells();
    let player: Player = random_player();
    original_array[to_position(7, 0)] = Piece(Some(player));
    let row = board.play(player, 7).unwrap();
    assert_eq!(0, row);
    assert!(original_array
        .iter()
        .zip(board.cells().iter())
        .all(|(el_org, el_after)| el_org == el_after));
}

#[test]
fn test_vertical_seed_122() {
    let board = Board::from_rng(&mut StdRng::seed_from_u64(122));

    for i in 3..=6 {
        assert!(board.check_win(i, 5, Player::Yellow));
        assert!(!board.check_win(i, 5, Player::Red));
    }
}

#[test]
fn test_diag_seed_124() {
    let board = Board::from_rng(&mut StdRng::seed_from_u64(124));
    for (j, i) in [(6, 0), (4, 2), (3, 3)] {
        assert!(board.check_win(i, j, Player::Yellow), "for row {i} col {j}");
        assert!(!board.check_win(i, j, Player::Red));
    }
}

#[test]
fn test_horizontal_seed_123() {
    let board = Board::from_rng(&mut StdRng::seed_from_u64(123));
    for i in 4..=7 {
        assert!(board.check_win(0, i, Player::Yellow));
        assert!(!board.check_win(0, i, Player::Red));
    }
}

#[test]
fn from_rng_boards_are_prefix_packed() {
    for seed in 0..64u64 {
        let board = Board::from_rng(&mut StdRng::seed_from_u64(seed));
        let cells = board.cells();
        for c in 0..8u8 {
            let mut seen_empty = false;
            for r in 0..8u8 {
                let occupied = cells[to_position(c, r)].0.is_some();
                if seen_empty {
                    assert!(!occupied, "floating piece at col {c} row {r} (seed {seed})");
                }
                if !occupied {
                    seen_empty = true;
                }
            }
        }
    }
}
