//! The board engine: bit-packed state, move application and win detection.
//!
//! The live state is a pair of 64-bit bitboards, one per player, under the
//! layout `bit(c, r) = c * 8 + r` with row 0 at the bottom of each column.

use vstd::prelude::*;

use crate::masks::{bit_at, cell_index};
use crate::piece::Piece;
use crate::player::Player;

verus! {

/// Illegal move possibilities: either the move is out of bounds or the
/// chosen column is already full.
#[derive(Debug, Clone, Copy, PartialEq, Eq)]
pub enum IllegalMove {
    OutOfBounds,
    StackIsFull,
}

/// Game terminated status: either a player has won or a draw occurred.
#[derive(Debug, Clone, Copy, PartialEq, Eq)]
pub enum TerminatedStatus {
    Win(Player),
    Draw,
}

/// Describes the possible outcomes of each play as consumed by the outer
/// state machine: an illegal move, a valid play, or a terminated game.
#[derive(Debug, Clone, Copy, PartialEq, Eq)]
pub enum GamePlay {
    ValidPlay,
    InvalidBoard(IllegalMove),
    GameTerminated(TerminatedStatus),
}

/// True iff the cell at column `c`, row `r` is set in the word `w`.
pub open spec fn occ(w: u64, c: int, r: int) -> bool {
    0 <= c < 8 && 0 <= r < 8 && bit_at(w, cell_index(c as u64, r as u64))
}

/// The mathematical content of a board: the two bitboards as plain words.
pub struct BoardView {
    pub red: u64,
    pub yellow: u64,
}

impl BoardView {
    /// The view of the empty board.
    pub open spec fn empty() -> BoardView {
        BoardView { red: 0, yellow: 0 }
    }

    /// The bitboard owned by `p`.
    pub open spec fn owner_bits(self, p: Player) -> u64 {
        match p {
            Player::Red => self.red,
            Player::Yellow => self.yellow,
        }
    }

    /// The occupancy of both players together.
    pub open spec fn bits(self) -> u64 {
        self.red | self.yellow
    }

    /// True iff the cell at column `c`, row `r` holds a piece of either color.
    pub open spec fn occupied(self, c: int, r: int) -> bool {
        occ(self.bits(), c, r)
    }

    /// The piece at column `c`, row `r`.
    pub open spec fn cell(self, c: int, r: int) -> Piece {
        if occ(self.red, c, r) {
            Piece(Some(Player::Red))
        } else if occ(self.yellow, c, r) {
            Piece(Some(Player::Yellow))
        } else {
            Piece(None)
        }
    }

    /// The lowest free row of column `c` at or above row `r`; 8 if none.
    pub open spec fn height_from(self, c: int, r: int) -> int
        decreases 8 - r,
    {
        if r >= 8 {
            8
        } else if !self.occupied(c, r) {
            r
        } else {
            self.height_from(c, r + 1)
        }
    }

    /// The fill height of column `c`: the lowest free row, or 8 when full.
    pub open spec fn height(self, c: int) -> int {
        self.height_from(c, 0)
    }

    /// The board invariant: no cell is owned by both players, and the
    /// occupied rows of every column are packed from the bottom.
    pub open spec fn wf(self) -> bool {
        &&& self.red & self.yellow == 0
        &&& forall|c: int, r: int|
            0 <= c < 8 && 1 <= r < 8 && #[trigger] self.occupied(c, r) ==> self.occupied(c, r - 1)
    }

    /// `self` with the cell at column `c`, row `r` given to player `p`.
    pub open spec fn place(self, p: Player, c: int, r: int) -> BoardView {
        match p {
            Player::Red => BoardView {
                red: self.red | (1u64 << cell_index(c as u64, r as u64)),
                yellow: self.yellow,
            },
            Player::Yellow => BoardView {
                red: self.red,
                yellow: self.yellow | (1u64 << cell_index(c as u64, r as u64)),
            },
        }
    }
}

/// A horizontal run of four on row `r` starting at column `c0`.
pub open spec fn run4_row(w: u64, r: int, c0: int) -> bool {
    occ(w, c0, r) && occ(w, c0 + 1, r) && occ(w, c0 + 2, r) && occ(w, c0 + 3, r)
}

/// A vertical run of four in column `c` starting at row `r0`.
pub open spec fn run4_col(w: u64, c: int, r0: int) -> bool {
    occ(w, c, r0) && occ(w, c, r0 + 1) && occ(w, c, r0 + 2) && occ(w, c, r0 + 3)
}

/// A run of four going diagonally up-right from `(c0, r0)`.
pub open spec fn run4_main(w: u64, c0: int, r0: int) -> bool {
    occ(w, c0, r0) && occ(w, c0 + 1, r0 + 1) && occ(w, c0 + 2, r0 + 2) && occ(w, c0 + 3, r0 + 3)
}

/// A run of four going diagonally down-right from `(c0, r0)`.
pub open spec fn run4_sec(w: u64, c0: int, r0: int) -> bool {
    occ(w, c0, r0) && occ(w, c0 + 1, r0 - 1) && occ(w, c0 + 2, r0 - 2) && occ(w, c0 + 3, r0 - 3)
}

/// Some run of four on row `r`.
pub open spec fn row_win(w: u64, r: int) -> bool {
    exists|c0: int| run4_row(w, r, c0)
}

/// Some run of four in column `c`.
pub open spec fn col_win(w: u64, c: int) -> bool {
    exists|r0: int| run4_col(w, c, r0)
}

/// Some run of four on the main diagonal through the cell at row `r`,
/// column `c`: the cells whose column minus row equals `c - r`.
pub open spec fn main_diag_win(w: u64, r: int, c: int) -> bool {
    exists|c0: int, r0: int| c0 - r0 == c - r && run4_main(w, c0, r0)
}

/// Some run of four on the anti-diagonal through the cell at row `r`,
/// column `c`: the cells whose column plus row equals `c + r`.
pub open spec fn sec_diag_win(w: u64, r: int, c: int) -> bool {
    exists|c0: int, r0: int| c0 + r0 == c + r && run4_sec(w, c0, r0)
}

/// A win in the word `w` at the just-played cell at row `r`, column `c`:
/// a run of four on one of the four lines through the cell.
pub open spec fn win_at(w: u64, r: int, c: int) -> bool {
    row_win(w, r) || col_win(w, c) || main_diag_win(w, r, c) || sec_diag_win(w, r, c)
}

/// The bit of the cell at position `j` of the line whose cells sit at bit
/// indices `start`, `start + step`, `start + 2 * step`, and so on.
pub open spec fn line_bit(w: u64, start: int, step: int, j: int) -> bool {
    bit_at(w, (start + j * step) as u64)
}

/// Four consecutive positions of a line, from `j` on, all held in `w`.
pub open spec fn line_run4(w: u64, start: int, step: int, j: int) -> bool {
    line_bit(w, start, step, j) && line_bit(w, start, step, j + 1) && line_bit(
        w,
        start,
        step,
        j + 2,
    ) && line_bit(w, start, step, j + 3)
}

/// Walks the `len` cells of one line in index order and reports whether some
/// four consecutive of them are all held in `w`.
fn line_has_run(w: u64, start: u8, step: u8, len: u8) -> (found: bool)
    requires
        1 <= step <= 9,
        len <= 8,
        start as int + (len as int - 1) * (step as int) < 64,
    ensures
        found <==> exists|j: int|
            0 <= j && j + 3 < len as int && line_run4(w, start as int, step as int, j),
{
    let ghost gs = start as int;
    let ghost gp = step as int;
    let mut i: u8 = 0;
    let mut idx: u8 = start;
    let mut run: u8 = 0;
    while i < len
        invariant
            1 <= step <= 9,
            len <= 8,
            start as int + (len as int - 1) * gp < 64,
            gs == start as int,
            gp == step as int,
            i <= len,
            idx as int == gs + i as int * gp,
            run <= 3,
            run as int <= i as int,
            forall|m: int| i as int - run as int <= m < i as int ==> line_bit(w, gs, gp, m),
            (run as int) < i as int ==> !line_bit(w, gs, gp, i as int - run as int - 1),
            forall|j: int| 0 <= j && j + 3 < i as int ==> !line_run4(w, gs, gp, j),
        decreases len as int - i as int,
    {
        proof {
            assert(i as int * gp <= (len as int - 1) * gp) by (nonlinear_arith)
                requires
                    i as int <= len as int - 1,
                    gp >= 1,
            ;
        }
        let owned = ((w >> (idx as u64)) & 1u64) == 1u64;
        proof {
            assert(idx < 64);
            assert((gs + i as int * gp) as u64 == idx as u64);
            assert(line_bit(w, gs, gp, i as int) == owned);
        }
        if owned {
            run = run + 1;
            if run >= 4 {
                proof {
                    assert(line_run4(w, gs, gp, i as int - 3));
                }
                return true;
            }
        } else {
            run = 0;
        }
        proof {
            if i as int - 3 >= 0 {
                if owned {
                    assert(!line_bit(w, gs, gp, i as int - run as int));
                } else {
                    assert(!line_bit(w, gs, gp, i as int));
                }
                assert(!line_run4(w, gs, gp, i as int - 3));
            }
        }
        i = i + 1;
        idx = idx + step;
        proof {
            assert((i as int) * gp == (i as int - 1) * gp + gp) by (nonlinear_arith);
        }
    }
    false
}

/// Position `m` of the line of row `r` is the cell at column `m`.
#[verifier::rlimit(100)]
proof fn lemma_row_line_equiv(w: u64, r: int)
    requires
        0 <= r < 8,
    ensures
        (exists|j: int| 0 <= j && j + 3 < 8 && #[trigger] line_run4(w, r, 8, j)) <==> row_win(w, r),
{
    assert forall|m: int| 0 <= m < 8 implies (#[trigger] line_bit(w, r, 8, m) <==> occ(w, m, r)) by {
        assert(cell_index(m as u64, r as u64) == (r + m * 8) as u64);
    }
    if exists|j: int| 0 <= j && j + 3 < 8 && #[trigger] line_run4(w, r, 8, j) {
        let j = choose|j: int| 0 <= j && j + 3 < 8 && #[trigger] line_run4(w, r, 8, j);
        assert(run4_row(w, r, j));
    }
    if row_win(w, r) {
        let c0 = choose|c0: int| run4_row(w, r, c0);
        assert(0 <= c0 && c0 + 3 < 8);
        assert(line_run4(w, r, 8, c0));
    }
}

/// Position `m` of the line of column `c` is the cell at row `m`.
#[verifier::rlimit(100)]
proof fn lemma_col_line_equiv(w: u64, c: int)
    requires
        0 <= c < 8,
    ensures
        (exists|j: int| 0 <= j && j + 3 < 8 && #[trigger] line_run4(w, c * 8, 1, j)) <==> col_win(w, c),
{
    assert forall|m: int| 0 <= m < 8 implies (#[trigger] line_bit(w, c * 8, 1, m) <==> occ(
        w,
        c,
        m,
    )) by {
        assert(cell_index(c as u64, m as u64) == (c * 8 + m * 1) as u64);
    }
    if exists|j: int| 0 <= j && j + 3 < 8 && #[trigger] line_run4(w, c * 8, 1, j) {
        let j = choose|j: int| 0 <= j && j + 3 < 8 && #[trigger] line_run4(w, c * 8, 1, j);
        assert(run4_col(w, c, j));
    }
    if col_win(w, c) {
        let r0 = choose|r0: int| run4_col(w, c, r0);
        assert(0 <= r0 && r0 + 3 < 8);
        assert(line_run4(w, c * 8, 1, r0));
    }
}

/// The main diagonal through a cell at row `r >= c`: position `m` of the
/// line is the cell `(m, m + (r - c))`.
#[verifier::rlimit(100)]
proof fn lemma_main_line_low(w: u64, r: int, c: int)
    requires
        0 <= c <= r < 8,
    ensures
        (exists|j: int| 0 <= j && j + 3 < 8 - (r - c) && #[trigger] line_run4(w, r - c, 9, j))
            <==> main_diag_win(w, r, c),
{
    let e = r - c;
    assert forall|m: int| 0 <= m < 8 - e implies (#[trigger] line_bit(w, e, 9, m) <==> occ(
        w,
        m,
        m + e,
    )) by {
        assert(cell_index(m as u64, (m + e) as u64) == (e + m * 9) as u64);
    }
    if exists|j: int| 0 <= j && j + 3 < 8 - e && #[trigger] line_run4(w, e, 9, j) {
        let j = choose|j: int| 0 <= j && j + 3 < 8 - e && #[trigger] line_run4(w, e, 9, j);
        assert(run4_main(w, j, j + e));
        assert(j - (j + e) == c - r);
    }
    if main_diag_win(w, r, c) {
        let (c0, r0) = choose|c0: int, r0: int| c0 - r0 == c - r && run4_main(w, c0, r0);
        assert(0 <= c0 && r0 + 3 < 8 && r0 == c0 + e);
        assert(line_run4(w, e, 9, c0));
    }
}

/// The main diagonal through a cell at row `r < c`: position `m` of the
/// line is the cell `(m + (c - r), m)`.
#[verifier::rlimit(100)]
proof fn lemma_main_line_high(w: u64, r: int, c: int)
    requires
        0 <= r < c < 8,
    ensures
        (exists|j: int| 0 <= j && j + 3 < 8 - (c - r) && #[trigger] line_run4(w, (c - r) * 8, 9, j))
            <==> main_diag_win(w, r, c),
{
    let f = c - r;
    assert forall|m: int| 0 <= m < 8 - f implies (#[trigger] line_bit(w, f * 8, 9, m) <==> occ(
        w,
        m + f,
        m,
    )) by {
        assert(cell_index((m + f) as u64, m as u64) == (f * 8 + m * 9) as u64);
    }
    if exists|j: int| 0 <= j && j + 3 < 8 - f && #[trigger] line_run4(w, f * 8, 9, j) {
        let j = choose|j: int| 0 <= j && j + 3 < 8 - f && #[trigger] line_run4(w, f * 8, 9, j);
        assert(run4_main(w, j + f, j));
        assert((j + f) - j == c - r);
    }
    if main_diag_win(w, r, c) {
        let (c0, r0) = choose|c0: int, r0: int| c0 - r0 == c - r && run4_main(w, c0, r0);
        assert(0 <= r0 && c0 + 3 < 8 && c0 == r0 + f);
        assert(line_run4(w, f * 8, 9, r0));
    }
}

/// The anti-diagonal through a cell with `r + c <= 7`: position `m` of the
/// line is the cell `(m, (r + c) - m)`.
#[verifier::rlimit(100)]
proof fn lemma_sec_line_low(w: u64, r: int, c: int)
    requires
        0 <= r < 8,
        0 <= c < 8,
        r + c <= 7,
    ensures
        (exists|j: int| 0 <= j && j + 3 < r + c + 1 && #[trigger] line_run4(w, r + c, 7, j))
            <==> sec_diag_win(w, r, c),
{
    let s = r + c;
    assert forall|m: int| 0 <= m <= s implies (#[trigger] line_bit(w, s, 7, m) <==> occ(
        w,
        m,
        s - m,
    )) by {
        assert(cell_index(m as u64, (s - m) as u64) == (s + m * 7) as u64);
    }
    if exists|j: int| 0 <= j && j + 3 < s + 1 && #[trigger] line_run4(w, s, 7, j) {
        let j = choose|j: int| 0 <= j && j + 3 < s + 1 && #[trigger] line_run4(w, s, 7, j);
        assert(run4_sec(w, j, s - j));
        assert(j + (s - j) == c + r);
    }
    if sec_diag_win(w, r, c) {
        let (c0, r0) = choose|c0: int, r0: int| c0 + r0 == c + r && run4_sec(w, c0, r0);
        assert(0 <= c0 && 0 <= r0 - 3 && c0 + r0 == s);
        assert(line_run4(w, s, 7, c0));
    }
}

/// The anti-diagonal through a cell with `r + c > 7`: position `m` of the
/// line is the cell `((r + c) - 7 + m, 7 - m)`.
#[verifier::rlimit(100)]
proof fn lemma_sec_line_high(w: u64, r: int, c: int)
    requires
        0 <= r < 8,
        0 <= c < 8,
        r + c > 7,
    ensures
        (exists|j: int|
            0 <= j && j + 3 < 15 - (r + c) && #[trigger] line_run4(w, (r + c - 7) * 8 + 7, 7, j))
            <==> sec_diag_win(w, r, c),
{
    let s = r + c;
    assert forall|m: int| 0 <= m < 15 - s implies (#[trigger] line_bit(w, (s - 7) * 8 + 7, 7, m)
        <==> occ(w, s - 7 + m, 7 - m)) by {
        assert(cell_index((s - 7 + m) as u64, (7 - m) as u64) == ((s - 7) * 8 + 7 + m * 7) as u64);
    }
    if exists|j: int| 0 <= j && j + 3 < 15 - s && #[trigger] line_run4(w, (s - 7) * 8 + 7, 7, j) {
        let j = choose|j: int| 0 <= j && j + 3 < 15 - s && #[trigger] line_run4(w, (s - 7) * 8 + 7, 7, j);
        assert(run4_sec(w, s - 7 + j, 7 - j));
        assert((s - 7 + j) + (7 - j) == c + r);
    }
    if sec_diag_win(w, r, c) {
        let (c0, r0) = choose|c0: int, r0: int| c0 + r0 == c + r && run4_sec(w, c0, r0);
        assert(c0 + 3 < 8 && r0 < 8 && c0 + r0 == s);
        assert(line_run4(w, (s - 7) * 8 + 7, 7, c0 - (s - 7)));
    }
}

/// The board: the pair of bitboards.  Mutated only through [`Board::play`];
/// observed through [`Board::check_win`] and [`Board::cells`].
#[derive(Debug, Clone, Copy, PartialEq, Eq)]
pub struct Board {
    red: u64,
    yellow: u64,
}

impl View for Board {
    type V = BoardView;

    closed spec fn view(&self) -> BoardView {
        BoardView { red: self.red, yellow: self.yellow }
    }
}

impl Default for Board {
    /// The empty board.
    fn default() -> (b: Board)
        ensures
            b@ == BoardView::empty(),
    {
        Board { red: 0, yellow: 0 }
    }
}

impl Board {
    /// Drops the piece of `player` into column `col`.  Returns the row at
    /// which it landed, or the illegal move, in which case the board is
    /// untouched.
    pub fn play(&mut self, player: Player, col: u8) -> (res: Result<u8, IllegalMove>)
        requires
            old(self)@.wf(),
        ensures
            final(self)@.wf(),
            0 <= old(self)@.height(col as int) <= 8,
            col >= 8 ==> final(self)@ == old(self)@ && res == Err::<u8, IllegalMove>(
                IllegalMove::OutOfBounds,
            ),
            col < 8 && old(self)@.height(col as int) == 8 ==> final(self)@ == old(self)@ && res
                == Err::<u8, IllegalMove>(IllegalMove::StackIsFull),
            col < 8 && old(self)@.height(col as int) < 8 ==> res == Ok::<u8, IllegalMove>(
                old(self)@.height(col as int) as u8,
            ) && final(self)@ == old(self)@.place(player, col as int, old(self)@.height(col as int)),
    {
        proof {
            lemma_height_from(old(self)@, col as int, 0);
        }
        if col > 7 {
            return Err(IllegalMove::OutOfBounds);
        }
        let w = self.red | self.yellow;
        let mut r: u8 = 0;
        while r < 8 && ((w >> ((col as u64) * 8 + (r as u64))) & 1u64) == 1u64
            invariant
                r <= 8,
                col < 8,
                self == old(self),
                old(self)@.wf(),
                w == old(self)@.bits(),
                old(self)@.height(col as int) == old(self)@.height_from(col as int, r as int),
            decreases 8 - r,
        {
            proof {
                assert(cell_index(col as u64, r as u64) == (col as u64) * 8 + (r as u64));
                assert(old(self)@.occupied(col as int, r as int));
            }
            r += 1;
        }
        let ghost v = old(self)@;
        let ghost h = v.height(col as int);
        if r == 8 {
            return Err(IllegalMove::StackIsFull);
        }
        proof {
            assert(cell_index(col as u64, r as u64) == (col as u64) * 8 + (r as u64));
            assert(h == r as int && !v.occupied(col as int, r as int));
        }
        let idx: u64 = (col as u64) * 8 + (r as u64);
        proof {
            let nv = v.place(player, col as int, h);
            assert(cell_index((col as int) as u64, h as u64) == idx);
            lemma_or_bit(v.red, v.yellow);
            lemma_single_bit(idx);
            lemma_or_bit(v.red, 1u64 << idx);
            lemma_or_bit(v.yellow, 1u64 << idx);
            lemma_or_bit(v.red | (1u64 << idx), v.yellow);
            lemma_or_bit(v.red, v.yellow | (1u64 << idx));
            lemma_and_comm(v.yellow, v.red);
            lemma_and_comm(v.red, v.yellow | (1u64 << idx));
            if r > 0 {
                lemma_height_from(v, col as int, 0);
            }
            match player {
                Player::Red => lemma_set_bit_disjoint(v.red, v.yellow, idx),
                Player::Yellow => lemma_set_bit_disjoint(v.yellow, v.red, idx),
            }
            assert(nv.red & nv.yellow == 0);
            assert forall|c2: int, r2: int|
                0 <= c2 < 8 && 1 <= r2 < 8 && #[trigger] nv.occupied(c2, r2) implies nv.occupied(
                c2,
                r2 - 1,
            ) by {
                let ci2 = cell_index(c2 as u64, r2 as u64);
                assert(ci2 == c2 * 8 + r2 && ci2 < 64);
                if ci2 == idx {
                    assert(c2 * 8 + r2 == col as int * 8 + r as int);
                    assert(c2 == col as int && r2 == r as int);
                    assert(v.occupied(c2, r2 - 1));
                    assert(bit_at(v.bits(), cell_index(c2 as u64, (r2 - 1) as u64)));
                } else {
                    match player {
                        Player::Red => {
                            assert(nv.bits() == (v.red | (1u64 << idx)) | v.yellow);
                            assert(bit_at((v.red | (1u64 << idx)) | v.yellow, ci2));
                            assert(bit_at(v.red | (1u64 << idx), ci2) || bit_at(v.yellow, ci2));
                            assert(bit_at(v.red, ci2) || bit_at(v.yellow, ci2));
                        },
                        Player::Yellow => {
                            assert(nv.bits() == v.red | (v.yellow | (1u64 << idx)));
                            assert(bit_at(v.red, ci2) || bit_at(v.yellow, ci2));
                        },
                    }
                    assert(bit_at(v.bits(), ci2));
                    assert(v.occupied(c2, r2));
                }
                let ci3 = cell_index(c2 as u64, (r2 - 1) as u64);
                assert(ci3 == c2 * 8 + (r2 - 1) && ci3 < 64);
                assert(v.occupied(c2, r2 - 1));
                assert(bit_at(v.bits(), ci3));
                assert(bit_at(v.red, ci3) || bit_at(v.yellow, ci3));
                match player {
                    Player::Red => {
                        assert(bit_at(v.red | (1u64 << idx), ci3) || bit_at(v.yellow, ci3));
                        assert(bit_at((v.red | (1u64 << idx)) | v.yellow, ci3));
                        assert(nv.bits() == (v.red | (1u64 << idx)) | v.yellow);
                    },
                    Player::Yellow => {
                        assert(bit_at(v.yellow | (1u64 << idx), ci3) || bit_at(v.red, ci3));
                        assert(bit_at(v.red | (v.yellow | (1u64 << idx)), ci3));
                        assert(nv.bits() == v.red | (v.yellow | (1u64 << idx)));
                    },
                }
                assert(bit_at(nv.bits(), ci3));
                assert(nv.occupied(c2, r2 - 1));
            }
            assert(nv.wf());
        }
        match player {
            Player::Red => {
                self.red = self.red | (1u64 << idx);
            },
            Player::Yellow => {
                self.yellow = self.yellow | (1u64 << idx);
            },
        }
        proof {
            assert(self@ == v.place(player, col as int, h));
        }
        Ok(r)
    }
}

/// Bits of one filled column: rows `0..k` of column `i`.
proof fn lemma_col_fill(k: u64, i: u64)
    requires
        k <= 8,
        i < 8,
    ensures
        forall|c: u64, r: u64|
            c < 8 && r < 8 ==> (bit_at((((1u64 << k) - 1) as u64) << ((i * 8) as u64), cell_index(c, r))
                <==> c == i && r < k),
{
    assert(forall|c: u64, r: u64|
        c < 8 && r < 8 ==> (bit_at((((1u64 << k) - 1) as u64) << ((i * 8) as u64), cell_index(c, r))
            <==> c == i && r < k)) by (bit_vector)
        requires
            k <= 8 && i < 8,
    ;
}

/// A seeded pseudo-random generator of the rand crate; used only by the
/// random-board constructor.
#[verifier::external_type_specification]
#[verifier::external_body]
pub struct ExStdRng(rand::rngs::StdRng);

/// Relies on rand's `Rng::gen` for `u64`: draws some 64-bit value.
#[verifier::external_body]
fn sample_u64(rng: &mut rand::rngs::StdRng) -> u64 {
    rand::Rng::gen(rng)
}

/// Relies on rand's `Rng::gen_range` over `0..=8`: the drawn value lies in
/// that range.
#[verifier::external_body]
fn sample_fill_count(rng: &mut rand::rngs::StdRng) -> (k: u8)
    ensures
        k <= 8,
{
    rand::Rng::gen_range(rng, 0..=8usize) as u8
}

impl Board {
    /// The cell-array projection: 64 pieces indexed by `column * 8 + row`.
    pub fn cells(&self) -> (out: [Piece; 64])
        requires
            self@.wf(),
        ensures
            forall|i: int| 0 <= i < 64 ==> out[i] == self@.cell(i / 8, i % 8),
    {
        let mut out: [Piece; 64] = [Piece(None);64];
        let mut i: usize = 0;
        while i < 64
            invariant
                i <= 64,
                forall|j: int| 0 <= j < i ==> out[j] == self@.cell(j / 8, j % 8),
            decreases 64 - i,
        {
            let red_set = ((self.red >> (i as u64)) & 1u64) == 1u64;
            let yellow_set = ((self.yellow >> (i as u64)) & 1u64) == 1u64;
            let p = if red_set {
                Piece(Some(Player::Red))
            } else if yellow_set {
                Piece(Some(Player::Yellow))
            } else {
                Piece(None)
            };
            proof {
                assert(cell_index((i as int / 8) as u64, (i as int % 8) as u64) == i as u64);
                assert(p == self@.cell(i as int / 8, i as int % 8));
            }
            out[i] = p;
            i = i + 1;
        }
        out
    }

    /// Builds the board whose column `c` holds pieces in rows `0..fill[c]`,
    /// each owned by Red where `mask` holds the cell's bit and by Yellow
    /// otherwise.
    pub fn from_parts(mask: u64, fill: &[u8; 8]) -> (b: Board)
        requires
            forall|c: int| 0 <= c < 8 ==> fill[c] <= 8,
        ensures
            b@.wf(),
            forall|c: int, r: int|
                0 <= c < 8 && 0 <= r < 8 ==> (b@.occupied(c, r) <==> r < fill[c]),
            forall|c: int, r: int|
                0 <= c < 8 && 0 <= r < 8 && r < fill[c] ==> b@.cell(c, r) == (if bit_at(
                    mask,
                    cell_index(c as u64, r as u64),
                ) {
                    Piece(Some(Player::Red))
                } else {
                    Piece(Some(Player::Yellow))
                }),
    {
        let mut filled: u64 = 0;
        let mut c: usize = 0;
        proof {
            lemma_zero_bits();
        }
        while c < 8
            invariant
                c <= 8,
                forall|c2: int| 0 <= c2 < 8 ==> fill[c2] <= 8,
                forall|c2: u64, r: u64|
                    c2 < 8 && r < 8 ==> (bit_at(filled, cell_index(c2, r)) <==> c2 < c && r
                        < fill[c2 as int]),
            decreases 8 - c,
        {
            let k = fill[c];
            let ku: u64 = k as u64;
            proof {
                assert(1u64 << ku >= 1) by (bit_vector)
                    requires
                        ku <= 8,
                ;
            }
            let col_bits = ((1u64 << ku) - 1) << ((c as u64) * 8);
            proof {
                lemma_col_fill(ku, c as u64);
                lemma_or_bit(filled, col_bits);
            }
            filled = filled | col_bits;
            c = c + 1;
        }
        let red = filled & mask;
        let yellow = filled & !mask;
        proof {
            lemma_and_bit(filled, mask);
            assert((filled & mask) & (filled & !mask) == 0) by (bit_vector);
            assert((filled & mask) | (filled & !mask) == filled) by (bit_vector);
            let bv = BoardView { red: filled & mask, yellow: filled & !mask };
            assert(bv.bits() == filled);
            assert forall|c2: int, r: int|
                0 <= c2 < 8 && 0 <= r < 8 implies (bv.occupied(c2, r) <==> r < fill[c2]) by {
                assert(cell_index(c2 as u64, r as u64) == c2 * 8 + r);
            }
            assert(bv.wf());
        }
        Board { red, yellow }
    }

    /// Builds a random well-formed board: draws an ownership mask, then a
    /// fill count in `0..=8` for every column; the bottom `fill` cells of
    /// each column are occupied, split between the players by the mask.
    pub fn from_rng(rng: &mut rand::rngs::StdRng) -> (b: Board)
        ensures
            b@.wf(),
    {
        let mask = sample_u64(rng);
        let mut fill: [u8; 8] = [0u8;8];
        let mut i: usize = 0;
        while i < 8
            invariant
                i <= 8,
                forall|c: int| 0 <= c < 8 ==> fill[c] <= 8,
            decreases 8 - i,
        {
            let k = sample_fill_count(rng);
            fill[i] = k;
            i = i + 1;
        }
        Board::from_parts(mask, &fill)
    }

    /// True iff all 64 cells are occupied.
    pub fn is_full(&self) -> (b: bool)
        ensures
            b == (self@.bits() == 0xFFFF_FFFF_FFFF_FFFFu64),
    {
        (self.red | self.yellow) == 0xFFFF_FFFF_FFFF_FFFF
    }

    /// True iff the just-played piece of `player` at row `row`, column `col`
    /// lies on a line that holds four consecutive cells of that player.
    pub fn check_win(&self, row: u8, col: u8, player: Player) -> (res: bool)
        requires
            row < 8,
            col < 8,
        ensures
            res == win_at(self@.owner_bits(player), row as int, col as int),
    {
        let w = match player {
            Player::Red => self.red,
            Player::Yellow => self.yellow,
        };
        let row_found = line_has_run(w, row, 8, 8);
        let col_found = line_has_run(w, col * 8, 1, 8);
        let main_found = if row >= col {
            line_has_run(w, row - col, 9, 8 - (row - col))
        } else {
            line_has_run(w, (col - row) * 8, 9, 8 - (col - row))
        };
        let sec_found = if row + col <= 7 {
            line_has_run(w, row + col, 7, row + col + 1)
        } else {
            line_has_run(w, (row + col - 7) * 8 + 7, 7, 15 - (row + col))
        };
        proof {
            lemma_row_line_equiv(w, row as int);
            lemma_col_line_equiv(w, col as int);
            if row >= col {
                lemma_main_line_low(w, row as int, col as int);
            } else {
                lemma_main_line_high(w, row as int, col as int);
            }
            if row + col <= 7 {
                lemma_sec_line_low(w, row as int, col as int);
            } else {
                lemma_sec_line_high(w, row as int, col as int);
            }
        }
        row_found || col_found || main_found || sec_found
    }
}

/// The index of the cell at column `i`, row `j` in the cell-array
/// projection.
pub fn to_position(i: u8, j: u8) -> (pos: usize)
    requires
        i < 8,
        j < 8,
    ensures
        pos == i * 8 + j,
{
    i as usize * 8 + j as usize
}

/// Bits of `w | v`: the union of the bits of the two words.
proof fn lemma_or_bit(w: u64, v: u64)
    ensures
        forall|i: u64| i < 64 ==> (#[trigger] bit_at(w | v, i) <==> bit_at(w, i) || bit_at(v, i)),
{
    assert(forall|i: u64| i < 64 ==> (bit_at(w | v, i) <==> bit_at(w, i) || bit_at(v, i)))
        by (bit_vector);
}

/// Bits of `w & v`: the intersection of the bits of the two words.
proof fn lemma_and_bit(w: u64, v: u64)
    ensures
        forall|i: u64| i < 64 ==> (#[trigger] bit_at(w & v, i) <==> bit_at(w, i) && bit_at(v, i)),
        forall|i: u64| i < 64 ==> (#[trigger] bit_at(w & !v, i) <==> bit_at(w, i) && !bit_at(v, i)),
{
    assert(forall|i: u64| i < 64 ==> (bit_at(w & v, i) <==> bit_at(w, i) && bit_at(v, i)))
        by (bit_vector);
    assert(forall|i: u64| i < 64 ==> (bit_at(w & !v, i) <==> bit_at(w, i) && !bit_at(v, i)))
        by (bit_vector);
}

/// Bits of `1 << b`: the one bit at index `b`.
proof fn lemma_single_bit(b: u64)
    requires
        b < 64,
    ensures
        forall|i: u64| i < 64 ==> (#[trigger] bit_at(1u64 << b, i) <==> i == b),
{
    assert(forall|i: u64| i < 64 ==> (bit_at(1u64 << b, i) <==> i == b)) by (bit_vector)
        requires
            b < 64,
    ;
}

/// Law: the empty board is well-formed, every cell of it is empty, and no
/// cell of it completes a win for either player.
pub proof fn lemma_empty_board(r: int, c: int, p: Player)
    requires
        0 <= r < 8,
        0 <= c < 8,
    ensures
        BoardView::empty().wf(),
        BoardView::empty().cell(c, r) == Piece(None),
        !BoardView::empty().occupied(c, r),
        !win_at(BoardView::empty().owner_bits(p), r, c),
{
    lemma_zero_bits();
    assert(0u64 & 0u64 == 0u64) by (bit_vector);
    assert(0u64 | 0u64 == 0u64) by (bit_vector);
    let v = BoardView::empty();
    assert(v.owner_bits(p) == 0u64);
    if row_win(0u64, r) {
        let c0 = choose|c0: int| run4_row(0u64, r, c0);
        assert(occ(0u64, c0, r));
    }
    if col_win(0u64, c) {
        let r0 = choose|r0: int| run4_col(0u64, c, r0);
        assert(occ(0u64, c, r0));
    }
    if main_diag_win(0u64, r, c) {
        let (c0, r0) = choose|c0: int, r0: int| c0 - r0 == c - r && run4_main(0u64, c0, r0);
        assert(occ(0u64, c0, r0));
    }
    if sec_diag_win(0u64, r, c) {
        let (c0, r0) = choose|c0: int, r0: int| c0 + r0 == c + r && run4_sec(0u64, c0, r0);
        assert(occ(0u64, c0, r0));
    }
}

/// Law: a play into column `col` of the empty board lands at row 0 and sets
/// exactly the cell `(col, 0)`; every other cell stays empty.  Together with
/// the contract of `play` this pins the first move of a game.
pub proof fn lemma_play_on_empty(p: Player, col: u8)
    requires
        col < 8,
    ensures
        BoardView::empty().height(col as int) == 0,
        BoardView::empty().place(p, col as int, 0).cell(col as int, 0) == Piece(Some(p)),
        forall|c: int, r: int|
            0 <= c < 8 && 0 <= r < 8 && !(c == col as int && r == 0)
                ==> BoardView::empty().place(p, col as int, 0).cell(c, r) == Piece(None),
{
    lemma_zero_bits();
    assert(0u64 | 0u64 == 0u64) by (bit_vector);
    let ci = cell_index(col as u64, 0u64);
    lemma_single_bit(ci);
    lemma_or_bit(0u64, 1u64 << ci);
    let v = BoardView::empty();
    assert(ci == col * 8 && ci < 64);
    assert((col as int) as u64 == col as u64);
    assert(!v.occupied(col as int, 0));
    let nv = v.place(p, col as int, 0);
    assert(cell_index((col as int) as u64, 0 as u64) == ci);
    assert forall|c: int, r: int|
        0 <= c < 8 && 0 <= r < 8 && !(c == col as int && r == 0) implies nv.cell(c, r) == Piece(
        None,
    ) by {
        let ci2 = cell_index(c as u64, r as u64);
        assert(ci2 == c * 8 + r && ci2 < 64);
        assert(ci2 != ci);
        assert(!bit_at(0u64 | (1u64 << ci), ci2));
    }
}

/// Law: in a well-formed board, as every constructor establishes and `play`
/// preserves, no cell is owned by both players.
pub proof fn lemma_disjoint(v: BoardView)
    requires
        v.wf(),
    ensures
        v.red & v.yellow == 0,
        forall|c: int, r: int| !(occ(v.red, c, r) && occ(v.yellow, c, r)),
{
    assert forall|c: int, r: int| !(occ(v.red, c, r) && occ(v.yellow, c, r)) by {
        if occ(v.red, c, r) && occ(v.yellow, c, r) {
            let ci = cell_index(c as u64, r as u64);
            lemma_and_bit(v.red, v.yellow);
            lemma_zero_bits();
            assert(bit_at(v.red & v.yellow, ci));
        }
    }
}

/// Conjunction of words is commutative.
proof fn lemma_and_comm(x: u64, y: u64)
    ensures
        x & y == y & x,
{
    assert(x & y == y & x) by (bit_vector);
}

/// Setting a bit that the other word does not hold keeps the words disjoint.
proof fn lemma_set_bit_disjoint(w: u64, v: u64, b: u64)
    requires
        b < 64,
        w & v == 0,
        !bit_at(v, b),
    ensures
        (w | (1u64 << b)) & v == 0,
{
    assert((w | (1u64 << b)) & v == 0) by (bit_vector)
        requires
            b < 64 && w & v == 0 && !bit_at(v, b),
    ;
}

/// Every row of a column below the first free one is occupied, and the
/// first free one is not.
proof fn lemma_height_from(v: BoardView, c: int, r: int)
    requires
        0 <= r <= 8,
    ensures
        r <= v.height_from(c, r) <= 8,
        forall|k: int| r <= k < v.height_from(c, r) ==> v.occupied(c, k),
        v.height_from(c, r) < 8 ==> !v.occupied(c, v.height_from(c, r)),
    decreases 8 - r,
{
    if r < 8 && v.occupied(c, r) {
        lemma_height_from(v, c, r + 1);
    }
}

/// Under the packed invariant, a cell below an occupied cell is occupied.
proof fn lemma_occ_down(v: BoardView, c: int, rhi: int, rlo: int)
    requires
        v.wf(),
        0 <= c < 8,
        0 <= rlo <= rhi < 8,
        v.occupied(c, rhi),
    ensures
        v.occupied(c, rlo),
    decreases rhi - rlo,
{
    if rhi > rlo {
        lemma_occ_down(v, c, rhi - 1, rlo);
    }
}

/// The height of a column always lies in `0 ..= 8`.
pub proof fn lemma_height_bounds(v: BoardView, c: int)
    ensures
        0 <= v.height(c) <= 8,
{
    lemma_height_from(v, c, 0);
}

/// Law: in a well-formed board the occupied rows of a column are exactly
/// `{0, 1, ..., k - 1}` where `k` is the column's height.
pub proof fn lemma_prefix_packed(v: BoardView, c: int)
    requires
        v.wf(),
        0 <= c < 8,
    ensures
        forall|r: int| 0 <= r < 8 ==> (v.occupied(c, r) <==> r < v.height(c)),
{
    lemma_height_from(v, c, 0);
    assert forall|r: int| 0 <= r < 8 implies (v.occupied(c, r) <==> r < v.height(c)) by {
        if r >= v.height(c) && v.occupied(c, r) {
            lemma_occ_down(v, c, r, v.height(c));
        }
    }
}

/// The zero word has no bits.
proof fn lemma_zero_bits()
    ensures
        forall|i: u64| i < 64 ==> !(#[trigger] bit_at(0u64, i)),
{
    assert(forall|i: u64| i < 64 ==> !bit_at(0u64, i)) by (bit_vector);
}


} // verus!
