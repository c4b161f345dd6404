//! Rendering of the cell-array projection as human-readable text.
//!
//! Rows are printed top-down (row 7 first), each cell between vertical
//! bars: a `*` for an occupied cell, a space for an empty one.  Coloring
//! the stars per player is a presentation concern left to callers.

use vstd::prelude::*;
use vstd::string::StringExecFns;

use crate::board::{Board, BoardView};
use crate::piece::Piece;

verus! {

/// The character a piece renders as.
pub open spec fn spec_piece_char(p: Piece) -> char {
    if p.0 is Some {
        '*'
    } else {
        ' '
    }
}

/// The text of row `j` up to column `i`: a bar, then `i` cells each
/// followed by a bar.
pub open spec fn spec_row_text(cells: Seq<Piece>, j: int, i: int) -> Seq<char>
    decreases i,
{
    if i <= 0 {
        seq!['|']
    } else {
        spec_row_text(cells, j, i - 1) + seq![spec_piece_char(cells[(i - 1) * 8 + j]), '|']
    }
}

/// The text of the rows from row `j` down to row 0, each ending in a
/// newline.
pub open spec fn spec_rows_from(cells: Seq<Piece>, j: int) -> Seq<char>
    decreases j + 1,
{
    if j < 0 {
        Seq::empty()
    } else {
        (spec_row_text(cells, j, 8) + seq!['\n']) + spec_rows_from(cells, j - 1)
    }
}

/// The full rendering of a cell array: rows 7 down to 0.
pub open spec fn spec_render(cells: Seq<Piece>) -> Seq<char> {
    spec_rows_from(cells, 7)
}

/// The cell-array projection of a board view as a sequence.
pub open spec fn spec_cells(v: BoardView) -> Seq<Piece> {
    Seq::new(64, |i: int| v.cell(i / 8, i % 8))
}

/// Renders a cell array as eight lines of `|`-separated cells, top row
/// first.
pub fn print_array(arr: &[Piece; 64]) -> (out: String)
    ensures
        out@ == spec_render(arr@),
{
    proof {
        reveal_strlit("|");
        reveal_strlit("*");
        reveal_strlit(" ");
        reveal_strlit("\n");
        assert("|"@ =~= seq!['|']);
        assert("*"@ =~= seq!['*']);
        assert(" "@ =~= seq![' ']);
        assert("\n"@ =~= seq!['\n']);
    }
    let mut out = String::new();
    let mut jj: u8 = 0;
    while jj < 8
        invariant
            jj <= 8,
            out@ + spec_rows_from(arr@, 7 - jj as int) =~= spec_render(arr@),
        decreases 8 - jj,
    {
        proof {
            reveal_strlit("|");
            reveal_strlit("*");
            reveal_strlit(" ");
            reveal_strlit("\n");
            assert("|"@ =~= seq!['|']);
            assert("*"@ =~= seq!['*']);
            assert(" "@ =~= seq![' ']);
            assert("\n"@ =~= seq!['\n']);
        }
        let j = 7 - jj;
        let ghost row_start = out@;
        out.append("|");
        proof {
            assert(out@ =~= row_start + spec_row_text(arr@, j as int, 0));
        }
        let mut i: u8 = 0;
        while i < 8
            invariant
                i <= 8,
                j == 7 - jj,
                jj < 8,
                out@ =~= row_start + spec_row_text(arr@, j as int, i as int),
            decreases 8 - i,
        {
            proof {
                reveal_strlit("|");
                reveal_strlit("*");
                reveal_strlit(" ");
                assert("|"@ =~= seq!['|']);
                assert("*"@ =~= seq!['*']);
                assert(" "@ =~= seq![' ']);
            }
            let p = arr[(i * 8 + j) as usize];
            if p.0.is_some() {
                out.append("*");
            } else {
                out.append(" ");
            }
            out.append("|");
            proof {
                assert(out@ =~= row_start + spec_row_text(arr@, j as int, i as int + 1));
            }
            i = i + 1;
        }
        out.append("\n");
        proof {
            assert(out@ =~= row_start + (spec_row_text(arr@, j as int, 8) + seq!['\n']));
            assert(out@ + spec_rows_from(arr@, 7 - (jj as int + 1)) =~= spec_render(arr@));
        }
        jj = jj + 1;
    }
    proof {
        assert(out@ =~= spec_render(arr@));
    }
    out
}

impl Board {
    /// The human-readable multi-line text of the board.
    pub fn render(&self) -> (out: String)
        requires
            self@.wf(),
        ensures
            out@ == spec_render(spec_cells(self@)),
    {
        let arr = self.cells();
        proof {
            assert(arr@ =~= spec_cells(self@));
        }
        print_array(&arr)
    }
}

} // verus!
