//! Line masks: 64-bit bitboards selecting exactly one row, column, main
//! diagonal or anti-diagonal of the 8x8 board.
//!
//! The bit layout is `bit(c, r) = c * 8 + r`: byte `c` of the word holds
//! column `c`, with row 0 at the byte's least significant bit.

use vstd::prelude::*;

verus! {

/// Column 0: the 8 bits of rows 0..8 in column 0.
pub const COL_BASE: u64 = 0xFF;

/// Row 0: the bottom bit of every byte.
pub const ROW_BASE: u64 = 0x0101010101010101;

/// The diagonal of cells `(c, c)`.
pub const MAIN_DIAG_BASE: u64 = 0x8040201008040201;

/// The anti-diagonal of cells `(c, 7 - c)`.
pub const SEC_DIAG_BASE: u64 = 0x0102040810204080;

/// True iff bit `i` of `w` is set; meaningful for `i < 64`.
pub open spec fn bit_at(w: u64, i: u64) -> bool {
    (w >> i) & 1u64 == 1u64
}

/// The bit index of the cell at column `c`, row `r`.
pub open spec fn cell_index(c: u64, r: u64) -> u64 {
    ((c * 8) + r) as u64
}

/// The number of set bits of `w`.
pub open spec fn popcount(w: u64) -> nat
    decreases w,
{
    if w == 0 {
        0nat
    } else {
        (w % 2) as nat + popcount(w / 2)
    }
}

/// Rows 0..k of every column, for `k <= 7`: the wrap rows that a diagonal
/// shift must clear.
pub open spec fn low_rows(k: u64) -> u64 {
    (ROW_BASE * (((1u64 << k) - 1) as u64)) as u64
}

/// The mask of row `r`: one bit in every column.
pub open spec fn row_mask(r: u64) -> u64 {
    ROW_BASE << r
}

/// The mask of column `c`: the 8 bits of byte `c`.
pub open spec fn col_mask(c: u64) -> u64 {
    COL_BASE << ((c * 8) as u64)
}

/// The main diagonal shifted towards higher columns: cells `col - row == d`,
/// for `0 < d <= 7`.
pub open spec fn main_diag_mask_pos(d: u64) -> u64 {
    (MAIN_DIAG_BASE >> d) & !((low_rows(d) << ((8 - d) as u64)) as u64)
}

/// The main diagonal shifted towards higher rows: cells `row - col == d`,
/// for `0 < d <= 7`.
pub open spec fn main_diag_mask_neg(d: u64) -> u64 {
    (MAIN_DIAG_BASE << d) & !low_rows(d)
}

/// The mask of the main diagonal at offset `d`: the cells where
/// `col - row == d`.  Shifting the base diagonal moves it sideways; the
/// cleared conjunct removes the bits that wrapped across a column boundary.
pub open spec fn main_diag_mask(d: int) -> u64 {
    if d > 0 {
        main_diag_mask_pos(d as u64)
    } else if d < 0 {
        main_diag_mask_neg((-d) as u64)
    } else {
        MAIN_DIAG_BASE
    }
}

/// The anti-diagonal shifted towards higher rows: cells `row + col == 7 + d`,
/// for `0 < d <= 7`.
pub open spec fn sec_diag_mask_pos(d: u64) -> u64 {
    (SEC_DIAG_BASE << d) & !low_rows(d)
}

/// The anti-diagonal shifted towards lower rows: cells `row + col == 7 - d`,
/// for `0 < d <= 7`.
pub open spec fn sec_diag_mask_neg(d: u64) -> u64 {
    (SEC_DIAG_BASE >> d) & !((low_rows(d) << ((8 - d) as u64)) as u64)
}

/// The mask of the anti-diagonal at offset `d`: the cells where
/// `row + col - 7 == d`.
pub open spec fn sec_diag_mask(d: int) -> u64 {
    if d > 0 {
        sec_diag_mask_pos(d as u64)
    } else if d < 0 {
        sec_diag_mask_neg((-d) as u64)
    } else {
        SEC_DIAG_BASE
    }
}

/// The mask of row `indx`: exactly the cells `(c, indx)` for `c < 8`.
pub fn get_row(indx: u8) -> (m: u64)
    requires
        indx < 8,
    ensures
        m == row_mask(indx as u64),
        forall|c: u64, r: u64|
            c < 8 && r < 8 ==> (bit_at(m, cell_index(c, r)) <==> r == indx),
{
    let d: u64 = indx as u64;
    let m = ROW_BASE << d;
    proof {
        assert(forall|c: u64, r: u64|
            c < 8 && r < 8 ==> (bit_at(row_mask(d), cell_index(c, r)) <==> r == d))
            by (bit_vector)
            requires
                d < 8,
        ;
    }
    m
}

/// The mask of column `indx`: exactly the cells `(indx, r)` for `r < 8`.
pub fn get_col(indx: u8) -> (m: u64)
    requires
        indx < 8,
    ensures
        m == col_mask(indx as u64),
        forall|c: u64, r: u64|
            c < 8 && r < 8 ==> (bit_at(m, cell_index(c, r)) <==> c == indx),
{
    let d: u64 = indx as u64;
    let m = COL_BASE << (d * 8);
    proof {
        assert(forall|c: u64, r: u64|
            c < 8 && r < 8 ==> (bit_at(col_mask(d), cell_index(c, r)) <==> c == d))
            by (bit_vector)
            requires
                d < 8,
        ;
    }
    m
}

/// The mask of the main diagonal at offset `indx`: exactly the cells where
/// `col - row == indx`.  The diagonal through a played cell `(col, row)` is
/// therefore `get_main_diag(col - row)`.
pub fn get_main_diag(indx: i8) -> (m: u64)
    requires
        -7 <= indx <= 7,
    ensures
        m == main_diag_mask(indx as int),
        forall|c: u64, r: u64|
            c < 8 && r < 8 ==> (bit_at(m, cell_index(c, r)) <==> c as int - r as int == indx as int),
{
    if indx > 0 {
        let d: u64 = indx as u64;
        proof {
            assert((1u64 << d) >= 2 && ROW_BASE * ((1u64 << d) - 1) < 0x8000000000000000)
                by (bit_vector)
                requires
                    0 < d < 8,
            ;
        }
        let shifted_inverse = (ROW_BASE * ((1u64 << d) - 1)) << (8 - d);
        let m = (MAIN_DIAG_BASE >> d) & !shifted_inverse;
        proof {
            assert(forall|c: u64, r: u64|
                c < 8 && r < 8 ==> (bit_at(main_diag_mask_pos(d), cell_index(c, r)) <==> c == r
                    + d)) by (bit_vector)
                requires
                    0 < d < 8,
            ;
        }
        m
    } else if indx < 0 {
        let d: u64 = (-indx) as u64;
        proof {
            assert((1u64 << d) >= 2 && ROW_BASE * ((1u64 << d) - 1) < 0x8000000000000000)
                by (bit_vector)
                requires
                    0 < d < 8,
            ;
        }
        let shifted = ROW_BASE * ((1u64 << d) - 1);
        let m = (MAIN_DIAG_BASE << d) & !shifted;
        proof {
            assert(forall|c: u64, r: u64|
                c < 8 && r < 8 ==> (bit_at(main_diag_mask_neg(d), cell_index(c, r)) <==> r == c
                    + d)) by (bit_vector)
                requires
                    0 < d < 8,
            ;
        }
        m
    } else {
        proof {
            assert(forall|c: u64, r: u64|
                c < 8 && r < 8 ==> (bit_at(0x8040201008040201u64, cell_index(c, r)) <==> c == r))
                by (bit_vector);
        }
        MAIN_DIAG_BASE
    }
}

/// The mask of the anti-diagonal at offset `indx`: exactly the cells where
/// `row + col - 7 == indx`.
pub fn get_sec_diag(indx: i8) -> (m: u64)
    requires
        -7 <= indx <= 7,
    ensures
        m == sec_diag_mask(indx as int),
        forall|c: u64, r: u64|
            c < 8 && r < 8 ==> (bit_at(m, cell_index(c, r)) <==> r as int + c as int - 7
                == indx as int),
{
    if indx > 0 {
        let d: u64 = indx as u64;
        proof {
            assert((1u64 << d) >= 2 && ROW_BASE * ((1u64 << d) - 1) < 0x8000000000000000)
                by (bit_vector)
                requires
                    0 < d < 8,
            ;
        }
        let shifted_inverse = ROW_BASE * ((1u64 << d) - 1);
        let m = (SEC_DIAG_BASE << d) & !shifted_inverse;
        proof {
            assert(forall|c: u64, r: u64|
                c < 8 && r < 8 ==> (bit_at(sec_diag_mask_pos(d), cell_index(c, r)) <==> r + c == 7
                    + d)) by (bit_vector)
                requires
                    0 < d < 8,
            ;
        }
        m
    } else if indx < 0 {
        let d: u64 = (-indx) as u64;
        proof {
            assert((1u64 << d) >= 2 && ROW_BASE * ((1u64 << d) - 1) < 0x8000000000000000)
                by (bit_vector)
                requires
                    0 < d < 8,
            ;
        }
        let shifted = (ROW_BASE * ((1u64 << d) - 1)) << (8 - d);
        let m = (SEC_DIAG_BASE >> d) & !shifted;
        proof {
            assert(forall|c: u64, r: u64|
                c < 8 && r < 8 ==> (bit_at(sec_diag_mask_neg(d), cell_index(c, r)) <==> r + c + d
                    == 7)) by (bit_vector)
                requires
                    0 < d < 8,
            ;
        }
        m
    } else {
        proof {
            assert(forall|c: u64, r: u64|
                c < 8 && r < 8 ==> (bit_at(0x0102040810204080u64, cell_index(c, r)) <==> r + c == 7))
                by (bit_vector);
        }
        SEC_DIAG_BASE
    }
}


/// Unfolds the bit count over one nibble: the four low bits plus the count
/// of the remaining word.
#[verifier::rlimit(100)]
proof fn lemma_popcount_nibble(w: u64)
    ensures
        popcount(w) == (w % 2 + w / 2 % 2 + w / 4 % 2 + w / 8 % 2) + popcount(w / 16),
{
    reveal_with_fuel(popcount, 5);
    assert(w / 2 / 2 == w / 4);
    assert(w / 4 / 2 == w / 8);
    assert(w / 8 / 2 == w / 16);
}

proof fn lemma_popcount_double(w: u64)
    requires
        w < 0x8000000000000000,
    ensures
        popcount((2 * w) as u64) == popcount(w),
{
    if w == 0 {
    } else {
        assert(((2 * w) as u64) % 2 == 0);
        assert(((2 * w) as u64) / 2 == w);
    }
}

proof fn lemma_popcount_shl(w: u64, s: u64)
    requires
        s < 64,
        (w << s) >> s == w,
    ensures
        popcount(w << s) == popcount(w),
    decreases s,
{
    if s == 0 {
        assert(w << 0u64 == w) by (bit_vector);
    } else {
        let t = (s - 1) as u64;
        assert(w << s == ((2 * (w << t)) as u64) && (w << t) < 0x8000000000000000 && (w << t) >> t
            == w) by (bit_vector)
            requires
                0 < s < 64 && t == (s - 1) as u64 && (w << s) >> s == w,
        ;
        lemma_popcount_shl(w, t);
        lemma_popcount_double(w << t);
    }
}

#[verifier::rlimit(100)]
proof fn lemma_popcount_row_base()
    ensures
        popcount(ROW_BASE) == 8,
{
    lemma_popcount_nibble(0x101010101010101u64);
    lemma_popcount_nibble(0x10101010101010u64);
    lemma_popcount_nibble(0x1010101010101u64);
    lemma_popcount_nibble(0x101010101010u64);
    lemma_popcount_nibble(0x10101010101u64);
    lemma_popcount_nibble(0x1010101010u64);
    lemma_popcount_nibble(0x101010101u64);
    lemma_popcount_nibble(0x10101010u64);
    lemma_popcount_nibble(0x1010101u64);
    lemma_popcount_nibble(0x101010u64);
    lemma_popcount_nibble(0x10101u64);
    lemma_popcount_nibble(0x1010u64);
    lemma_popcount_nibble(0x101u64);
    lemma_popcount_nibble(0x10u64);
    lemma_popcount_nibble(0x1u64);
}

#[verifier::rlimit(100)]
proof fn lemma_popcount_col_base()
    ensures
        popcount(COL_BASE) == 8,
{
    lemma_popcount_nibble(0xffu64);
    lemma_popcount_nibble(0xfu64);
}

#[verifier::rlimit(100)]
proof fn lemma_popcount_main_diag_0()
    ensures
        popcount(0x8040201008040201u64) == 8,
{
    lemma_popcount_nibble(0x8040201008040201u64);
    lemma_popcount_nibble(0x804020100804020u64);
    lemma_popcount_nibble(0x80402010080402u64);
    lemma_popcount_nibble(0x8040201008040u64);
    lemma_popcount_nibble(0x804020100804u64);
    lemma_popcount_nibble(0x80402010080u64);
    lemma_popcount_nibble(0x8040201008u64);
    lemma_popcount_nibble(0x804020100u64);
    lemma_popcount_nibble(0x80402010u64);
    lemma_popcount_nibble(0x8040201u64);
    lemma_popcount_nibble(0x804020u64);
    lemma_popcount_nibble(0x80402u64);
    lemma_popcount_nibble(0x8040u64);
    lemma_popcount_nibble(0x804u64);
    lemma_popcount_nibble(0x80u64);
    lemma_popcount_nibble(0x8u64);
}

#[verifier::rlimit(100)]
proof fn lemma_popcount_main_diag_pos_1()
    ensures
        popcount(0x4020100804020100u64) == 7,
{
    lemma_popcount_nibble(0x4020100804020100u64);
    lemma_popcount_nibble(0x402010080402010u64);
    lemma_popcount_nibble(0x40201008040201u64);
    lemma_popcount_nibble(0x4020100804020u64);
    lemma_popcount_nibble(0x402010080402u64);
    lemma_popcount_nibble(0x40201008040u64);
    lemma_popcount_nibble(0x4020100804u64);
    lemma_popcount_nibble(0x402010080u64);
    lemma_popcount_nibble(0x40201008u64);
    lemma_popcount_nibble(0x4020100u64);
    lemma_popcount_nibble(0x402010u64);
    lemma_popcount_nibble(0x40201u64);
    lemma_popcount_nibble(0x4020u64);
    lemma_popcount_nibble(0x402u64);
    lemma_popcount_nibble(0x40u64);
    lemma_popcount_nibble(0x4u64);
}

#[verifier::rlimit(100)]
proof fn lemma_popcount_main_diag_pos_2()
    ensures
        popcount(0x2010080402010000u64) == 6,
{
    lemma_popcount_nibble(0x2010080402010000u64);
    lemma_popcount_nibble(0x201008040201000u64);
    lemma_popcount_nibble(0x20100804020100u64);
    lemma_popcount_nibble(0x2010080402010u64);
    lemma_popcount_nibble(0x201008040201u64);
    lemma_popcount_nibble(0x20100804020u64);
    lemma_popcount_nibble(0x2010080402u64);
    lemma_popcount_nibble(0x201008040u64);
    lemma_popcount_nibble(0x20100804u64);
    lemma_popcount_nibble(0x2010080u64);
    lemma_popcount_nibble(0x201008u64);
    lemma_popcount_nibble(0x20100u64);
    lemma_popcount_nibble(0x2010u64);
    lemma_popcount_nibble(0x201u64);
    lemma_popcount_nibble(0x20u64);
    lemma_popcount_nibble(0x2u64);
}

#[verifier::rlimit(100)]
proof fn lemma_popcount_main_diag_pos_3()
    ensures
        popcount(0x1008040201000000u64) == 5,
{
    lemma_popcount_nibble(0x1008040201000000u64);
    lemma_popcount_nibble(0x100804020100000u64);
    lemma_popcount_nibble(0x10080402010000u64);
    lemma_popcount_nibble(0x1008040201000u64);
    lemma_popcount_nibble(0x100804020100u64);
    lemma_popcount_nibble(0x10080402010u64);
    lemma_popcount_nibble(0x1008040201u64);
    lemma_popcount_nibble(0x100804020u64);
    lemma_popcount_nibble(0x10080402u64);
    lemma_popcount_nibble(0x1008040u64);
    lemma_popcount_nibble(0x100804u64);
    lemma_popcount_nibble(0x10080u64);
    lemma_popcount_nibble(0x1008u64);
    lemma_popcount_nibble(0x100u64);
    lemma_popcount_nibble(0x10u64);
    lemma_popcount_nibble(0x1u64);
}

#[verifier::rlimit(100)]
proof fn lemma_popcount_main_diag_pos_4()
    ensures
        popcount(0x804020100000000u64) == 4,
{
    lemma_popcount_nibble(0x804020100000000u64);
    lemma_popcount_nibble(0x80402010000000u64);
    lemma_popcount_nibble(0x8040201000000u64);
    lemma_popcount_nibble(0x804020100000u64);
    lemma_popcount_nibble(0x80402010000u64);
    lemma_popcount_nibble(0x8040201000u64);
    lemma_popcount_nibble(0x804020100u64);
    lemma_popcount_nibble(0x80402010u64);
    lemma_popcount_nibble(0x8040201u64);
    lemma_popcount_nibble(0x804020u64);
    lemma_popcount_nibble(0x80402u64);
    lemma_popcount_nibble(0x8040u64);
    lemma_popcount_nibble(0x804u64);
    lemma_popcount_nibble(0x80u64);
    lemma_popcount_nibble(0x8u64);
}

#[verifier::rlimit(100)]
proof fn lemma_popcount_main_diag_pos_5()
    ensures
        popcount(0x402010000000000u64) == 3,
{
    lemma_popcount_nibble(0x402010000000000u64);
    lemma_popcount_nibble(0x40201000000000u64);
    lemma_popcount_nibble(0x4020100000000u64);
    lemma_popcount_nibble(0x402010000000u64);
    lemma_popcount_nibble(0x40201000000u64);
    lemma_popcount_nibble(0x4020100000u64);
    lemma_popcount_nibble(0x402010000u64);
    lemma_popcount_nibble(0x40201000u64);
    lemma_popcount_nibble(0x4020100u64);
    lemma_popcount_nibble(0x402010u64);
    lemma_popcount_nibble(0x40201u64);
    lemma_popcount_nibble(0x4020u64);
    lemma_popcount_nibble(0x402u64);
    lemma_popcount_nibble(0x40u64);
    lemma_popcount_nibble(0x4u64);
}

#[verifier::rlimit(100)]
proof fn lemma_popcount_main_diag_pos_6()
    ensures
        popcount(0x201000000000000u64) == 2,
{
    lemma_popcount_nibble(0x201000000000000u64);
    lemma_popcount_nibble(0x20100000000000u64);
    lemma_popcount_nibble(0x2010000000000u64);
    lemma_popcount_nibble(0x201000000000u64);
    lemma_popcount_nibble(0x20100000000u64);
    lemma_popcount_nibble(0x2010000000u64);
    lemma_popcount_nibble(0x201000000u64);
    lemma_popcount_nibble(0x20100000u64);
    lemma_popcount_nibble(0x2010000u64);
    lemma_popcount_nibble(0x201000u64);
    lemma_popcount_nibble(0x20100u64);
    lemma_popcount_nibble(0x2010u64);
    lemma_popcount_nibble(0x201u64);
    lemma_popcount_nibble(0x20u64);
    lemma_popcount_nibble(0x2u64);
}

#[verifier::rlimit(100)]
proof fn lemma_popcount_main_diag_pos_7()
    ensures
        popcount(0x100000000000000u64) == 1,
{
    lemma_popcount_nibble(0x100000000000000u64);
    lemma_popcount_nibble(0x10000000000000u64);
    lemma_popcount_nibble(0x1000000000000u64);
    lemma_popcount_nibble(0x100000000000u64);
    lemma_popcount_nibble(0x10000000000u64);
    lemma_popcount_nibble(0x1000000000u64);
    lemma_popcount_nibble(0x100000000u64);
    lemma_popcount_nibble(0x10000000u64);
    lemma_popcount_nibble(0x1000000u64);
    lemma_popcount_nibble(0x100000u64);
    lemma_popcount_nibble(0x10000u64);
    lemma_popcount_nibble(0x1000u64);
    lemma_popcount_nibble(0x100u64);
    lemma_popcount_nibble(0x10u64);
    lemma_popcount_nibble(0x1u64);
}

#[verifier::rlimit(100)]
proof fn lemma_popcount_main_diag_neg_1()
    ensures
        popcount(0x80402010080402u64) == 7,
{
    lemma_popcount_nibble(0x80402010080402u64);
    lemma_popcount_nibble(0x8040201008040u64);
    lemma_popcount_nibble(0x804020100804u64);
    lemma_popcount_nibble(0x80402010080u64);
    lemma_popcount_nibble(0x8040201008u64);
    lemma_popcount_nibble(0x804020100u64);
    lemma_popcount_nibble(0x80402010u64);
    lemma_popcount_nibble(0x8040201u64);
    lemma_popcount_nibble(0x804020u64);
    lemma_popcount_nibble(0x80402u64);
    lemma_popcount_nibble(0x8040u64);
    lemma_popcount_nibble(0x804u64);
    lemma_popcount_nibble(0x80u64);
    lemma_popcount_nibble(0x8u64);
}

#[verifier::rlimit(100)]
proof fn lemma_popcount_main_diag_neg_2()
    ensures
        popcount(0x804020100804u64) == 6,
{
    lemma_popcount_nibble(0x804020100804u64);
    lemma_popcount_nibble(0x80402010080u64);
    lemma_popcount_nibble(0x8040201008u64);
    lemma_popcount_nibble(0x804020100u64);
    lemma_popcount_nibble(0x80402010u64);
    lemma_popcount_nibble(0x8040201u64);
    lemma_popcount_nibble(0x804020u64);
    lemma_popcount_nibble(0x80402u64);
    lemma_popcount_nibble(0x8040u64);
    lemma_popcount_nibble(0x804u64);
    lemma_popcount_nibble(0x80u64);
    lemma_popcount_nibble(0x8u64);
}

#[verifier::rlimit(100)]
proof fn lemma_popcount_main_diag_neg_3()
    ensures
        popcount(0x8040201008u64) == 5,
{
    lemma_popcount_nibble(0x8040201008u64);
    lemma_popcount_nibble(0x804020100u64);
    lemma_popcount_nibble(0x80402010u64);
    lemma_popcount_nibble(0x8040201u64);
    lemma_popcount_nibble(0x804020u64);
    lemma_popcount_nibble(0x80402u64);
    lemma_popcount_nibble(0x8040u64);
    lemma_popcount_nibble(0x804u64);
    lemma_popcount_nibble(0x80u64);
    lemma_popcount_nibble(0x8u64);
}

#[verifier::rlimit(100)]
proof fn lemma_popcount_main_diag_neg_4()
    ensures
        popcount(0x80402010u64) == 4,
{
    lemma_popcount_nibble(0x80402010u64);
    lemma_popcount_nibble(0x8040201u64);
    lemma_popcount_nibble(0x804020u64);
    lemma_popcount_nibble(0x80402u64);
    lemma_popcount_nibble(0x8040u64);
    lemma_popcount_nibble(0x804u64);
    lemma_popcount_nibble(0x80u64);
    lemma_popcount_nibble(0x8u64);
}

#[verifier::rlimit(100)]
proof fn lemma_popcount_main_diag_neg_5()
    ensures
        popcount(0x804020u64) == 3,
{
    lemma_popcount_nibble(0x804020u64);
    lemma_popcount_nibble(0x80402u64);
    lemma_popcount_nibble(0x8040u64);
    lemma_popcount_nibble(0x804u64);
    lemma_popcount_nibble(0x80u64);
    lemma_popcount_nibble(0x8u64);
}

#[verifier::rlimit(100)]
proof fn lemma_popcount_main_diag_neg_6()
    ensures
        popcount(0x8040u64) == 2,
{
    lemma_popcount_nibble(0x8040u64);
    lemma_popcount_nibble(0x804u64);
    lemma_popcount_nibble(0x80u64);
    lemma_popcount_nibble(0x8u64);
}

#[verifier::rlimit(100)]
proof fn lemma_popcount_main_diag_neg_7()
    ensures
        popcount(0x80u64) == 1,
{
    lemma_popcount_nibble(0x80u64);
    lemma_popcount_nibble(0x8u64);
}

#[verifier::rlimit(100)]
proof fn lemma_popcount_sec_diag_0()
    ensures
        popcount(0x102040810204080u64) == 8,
{
    lemma_popcount_nibble(0x102040810204080u64);
    lemma_popcount_nibble(0x10204081020408u64);
    lemma_popcount_nibble(0x1020408102040u64);
    lemma_popcount_nibble(0x102040810204u64);
    lemma_popcount_nibble(0x10204081020u64);
    lemma_popcount_nibble(0x1020408102u64);
    lemma_popcount_nibble(0x102040810u64);
    lemma_popcount_nibble(0x10204081u64);
    lemma_popcount_nibble(0x1020408u64);
    lemma_popcount_nibble(0x102040u64);
    lemma_popcount_nibble(0x10204u64);
    lemma_popcount_nibble(0x1020u64);
    lemma_popcount_nibble(0x102u64);
    lemma_popcount_nibble(0x10u64);
    lemma_popcount_nibble(0x1u64);
}

#[verifier::rlimit(100)]
proof fn lemma_popcount_sec_diag_pos_1()
    ensures
        popcount(0x204081020408000u64) == 7,
{
    lemma_popcount_nibble(0x204081020408000u64);
    lemma_popcount_nibble(0x20408102040800u64);
    lemma_popcount_nibble(0x2040810204080u64);
    lemma_popcount_nibble(0x204081020408u64);
    lemma_popcount_nibble(0x20408102040u64);
    lemma_popcount_nibble(0x2040810204u64);
    lemma_popcount_nibble(0x204081020u64);
    lemma_popcount_nibble(0x20408102u64);
    lemma_popcount_nibble(0x2040810u64);
    lemma_popcount_nibble(0x204081u64);
    lemma_popcount_nibble(0x20408u64);
    lemma_popcount_nibble(0x2040u64);
    lemma_popcount_nibble(0x204u64);
    lemma_popcount_nibble(0x20u64);
    lemma_popcount_nibble(0x2u64);
}

#[verifier::rlimit(100)]
proof fn lemma_popcount_sec_diag_pos_2()
    ensures
        popcount(0x408102040800000u64) == 6,
{
    lemma_popcount_nibble(0x408102040800000u64);
    lemma_popcount_nibble(0x40810204080000u64);
    lemma_popcount_nibble(0x4081020408000u64);
    lemma_popcount_nibble(0x408102040800u64);
    lemma_popcount_nibble(0x40810204080u64);
    lemma_popcount_nibble(0x4081020408u64);
    lemma_popcount_nibble(0x408102040u64);
    lemma_popcount_nibble(0x40810204u64);
    lemma_popcount_nibble(0x4081020u64);
    lemma_popcount_nibble(0x408102u64);
    lemma_popcount_nibble(0x40810u64);
    lemma_popcount_nibble(0x4081u64);
    lemma_popcount_nibble(0x408u64);
    lemma_popcount_nibble(0x40u64);
    lemma_popcount_nibble(0x4u64);
}

#[verifier::rlimit(100)]
proof fn lemma_popcount_sec_diag_pos_3()
    ensures
        popcount(0x810204080000000u64) == 5,
{
    lemma_popcount_nibble(0x810204080000000u64);
    lemma_popcount_nibble(0x81020408000000u64);
    lemma_popcount_nibble(0x8102040800000u64);
    lemma_popcount_nibble(0x810204080000u64);
    lemma_popcount_nibble(0x81020408000u64);
    lemma_popcount_nibble(0x8102040800u64);
    lemma_popcount_nibble(0x810204080u64);
    lemma_popcount_nibble(0x81020408u64);
    lemma_popcount_nibble(0x8102040u64);
    lemma_popcount_nibble(0x810204u64);
    lemma_popcount_nibble(0x81020u64);
    lemma_popcount_nibble(0x8102u64);
    lemma_popcount_nibble(0x810u64);
    lemma_popcount_nibble(0x81u64);
    lemma_popcount_nibble(0x8u64);
}

#[verifier::rlimit(100)]
proof fn lemma_popcount_sec_diag_pos_4()
    ensures
        popcount(0x1020408000000000u64) == 4,
{
    lemma_popcount_nibble(0x1020408000000000u64);
    lemma_popcount_nibble(0x102040800000000u64);
    lemma_popcount_nibble(0x10204080000000u64);
    lemma_popcount_nibble(0x1020408000000u64);
    lemma_popcount_nibble(0x102040800000u64);
    lemma_popcount_nibble(0x10204080000u64);
    lemma_popcount_nibble(0x1020408000u64);
    lemma_popcount_nibble(0x102040800u64);
    lemma_popcount_nibble(0x10204080u64);
    lemma_popcount_nibble(0x1020408u64);
    lemma_popcount_nibble(0x102040u64);
    lemma_popcount_nibble(0x10204u64);
    lemma_popcount_nibble(0x1020u64);
    lemma_popcount_nibble(0x102u64);
    lemma_popcount_nibble(0x10u64);
    lemma_popcount_nibble(0x1u64);
}

#[verifier::rlimit(100)]
proof fn lemma_popcount_sec_diag_pos_5()
    ensures
        popcount(0x2040800000000000u64) == 3,
{
    lemma_popcount_nibble(0x2040800000000000u64);
    lemma_popcount_nibble(0x204080000000000u64);
    lemma_popcount_nibble(0x20408000000000u64);
    lemma_popcount_nibble(0x2040800000000u64);
    lemma_popcount_nibble(0x204080000000u64);
    lemma_popcount_nibble(0x20408000000u64);
    lemma_popcount_nibble(0x2040800000u64);
    lemma_popcount_nibble(0x204080000u64);
    lemma_popcount_nibble(0x20408000u64);
    lemma_popcount_nibble(0x2040800u64);
    lemma_popcount_nibble(0x204080u64);
    lemma_popcount_nibble(0x20408u64);
    lemma_popcount_nibble(0x2040u64);
    lemma_popcount_nibble(0x204u64);
    lemma_popcount_nibble(0x20u64);
    lemma_popcount_nibble(0x2u64);
}

#[verifier::rlimit(100)]
proof fn lemma_popcount_sec_diag_pos_6()
    ensures
        popcount(0x4080000000000000u64) == 2,
{
    lemma_popcount_nibble(0x4080000000000000u64);
    lemma_popcount_nibble(0x408000000000000u64);
    lemma_popcount_nibble(0x40800000000000u64);
    lemma_popcount_nibble(0x4080000000000u64);
    lemma_popcount_nibble(0x408000000000u64);
    lemma_popcount_nibble(0x40800000000u64);
    lemma_popcount_nibble(0x4080000000u64);
    lemma_popcount_nibble(0x408000000u64);
    lemma_popcount_nibble(0x40800000u64);
    lemma_popcount_nibble(0x4080000u64);
    lemma_popcount_nibble(0x408000u64);
    lemma_popcount_nibble(0x40800u64);
    lemma_popcount_nibble(0x4080u64);
    lemma_popcount_nibble(0x408u64);
    lemma_popcount_nibble(0x40u64);
    lemma_popcount_nibble(0x4u64);
}

#[verifier::rlimit(100)]
proof fn lemma_popcount_sec_diag_pos_7()
    ensures
        popcount(0x8000000000000000u64) == 1,
{
    lemma_popcount_nibble(0x8000000000000000u64);
    lemma_popcount_nibble(0x800000000000000u64);
    lemma_popcount_nibble(0x80000000000000u64);
    lemma_popcount_nibble(0x8000000000000u64);
    lemma_popcount_nibble(0x800000000000u64);
    lemma_popcount_nibble(0x80000000000u64);
    lemma_popcount_nibble(0x8000000000u64);
    lemma_popcount_nibble(0x800000000u64);
    lemma_popcount_nibble(0x80000000u64);
    lemma_popcount_nibble(0x8000000u64);
    lemma_popcount_nibble(0x800000u64);
    lemma_popcount_nibble(0x80000u64);
    lemma_popcount_nibble(0x8000u64);
    lemma_popcount_nibble(0x800u64);
    lemma_popcount_nibble(0x80u64);
    lemma_popcount_nibble(0x8u64);
}

#[verifier::rlimit(100)]
proof fn lemma_popcount_sec_diag_neg_1()
    ensures
        popcount(0x1020408102040u64) == 7,
{
    lemma_popcount_nibble(0x1020408102040u64);
    lemma_popcount_nibble(0x102040810204u64);
    lemma_popcount_nibble(0x10204081020u64);
    lemma_popcount_nibble(0x1020408102u64);
    lemma_popcount_nibble(0x102040810u64);
    lemma_popcount_nibble(0x10204081u64);
    lemma_popcount_nibble(0x1020408u64);
    lemma_popcount_nibble(0x102040u64);
    lemma_popcount_nibble(0x10204u64);
    lemma_popcount_nibble(0x1020u64);
    lemma_popcount_nibble(0x102u64);
    lemma_popcount_nibble(0x10u64);
    lemma_popcount_nibble(0x1u64);
}

#[verifier::rlimit(100)]
proof fn lemma_popcount_sec_diag_neg_2()
    ensures
        popcount(0x10204081020u64) == 6,
{
    lemma_popcount_nibble(0x10204081020u64);
    lemma_popcount_nibble(0x1020408102u64);
    lemma_popcount_nibble(0x102040810u64);
    lemma_popcount_nibble(0x10204081u64);
    lemma_popcount_nibble(0x1020408u64);
    lemma_popcount_nibble(0x102040u64);
    lemma_popcount_nibble(0x10204u64);
    lemma_popcount_nibble(0x1020u64);
    lemma_popcount_nibble(0x102u64);
    lemma_popcount_nibble(0x10u64);
    lemma_popcount_nibble(0x1u64);
}

#[verifier::rlimit(100)]
proof fn lemma_popcount_sec_diag_neg_3()
    ensures
        popcount(0x102040810u64) == 5,
{
    lemma_popcount_nibble(0x102040810u64);
    lemma_popcount_nibble(0x10204081u64);
    lemma_popcount_nibble(0x1020408u64);
    lemma_popcount_nibble(0x102040u64);
    lemma_popcount_nibble(0x10204u64);
    lemma_popcount_nibble(0x1020u64);
    lemma_popcount_nibble(0x102u64);
    lemma_popcount_nibble(0x10u64);
    lemma_popcount_nibble(0x1u64);
}

#[verifier::rlimit(100)]
proof fn lemma_popcount_sec_diag_neg_4()
    ensures
        popcount(0x1020408u64) == 4,
{
    lemma_popcount_nibble(0x1020408u64);
    lemma_popcount_nibble(0x102040u64);
    lemma_popcount_nibble(0x10204u64);
    lemma_popcount_nibble(0x1020u64);
    lemma_popcount_nibble(0x102u64);
    lemma_popcount_nibble(0x10u64);
    lemma_popcount_nibble(0x1u64);
}

#[verifier::rlimit(100)]
proof fn lemma_popcount_sec_diag_neg_5()
    ensures
        popcount(0x10204u64) == 3,
{
    lemma_popcount_nibble(0x10204u64);
    lemma_popcount_nibble(0x1020u64);
    lemma_popcount_nibble(0x102u64);
    lemma_popcount_nibble(0x10u64);
    lemma_popcount_nibble(0x1u64);
}

#[verifier::rlimit(100)]
proof fn lemma_popcount_sec_diag_neg_6()
    ensures
        popcount(0x102u64) == 2,
{
    lemma_popcount_nibble(0x102u64);
    lemma_popcount_nibble(0x10u64);
    lemma_popcount_nibble(0x1u64);
}

#[verifier::rlimit(100)]
proof fn lemma_popcount_sec_diag_neg_7()
    ensures
        popcount(0x1u64) == 1,
{
    lemma_popcount_nibble(0x1u64);
}

/// Law: a row mask selects exactly 8 cells.
pub proof fn lemma_row_mask_popcount(r: u64)
    requires
        r < 8,
    ensures
        popcount(row_mask(r)) == 8,
{
    lemma_popcount_row_base();
    assert((ROW_BASE << r) >> r == ROW_BASE) by (bit_vector)
        requires
            r < 8,
    ;
    lemma_popcount_shl(ROW_BASE, r);
}

/// Law: a column mask selects exactly 8 cells.
pub proof fn lemma_col_mask_popcount(c: u64)
    requires
        c < 8,
    ensures
        popcount(col_mask(c)) == 8,
{
    lemma_popcount_col_base();
    assert((COL_BASE << ((c * 8) as u64)) >> ((c * 8) as u64) == COL_BASE) by (bit_vector)
        requires
            c < 8,
    ;
    lemma_popcount_shl(COL_BASE, (c * 8) as u64);
}

/// Law: the main diagonal mask at offset `d` selects exactly `8 - |d|` cells.
pub proof fn lemma_main_diag_mask_popcount(d: int)
    requires
        -7 <= d <= 7,
    ensures
        popcount(main_diag_mask(d)) == 8 - (if d >= 0 { d } else { -d }),
{
    assert(main_diag_mask_pos(1) == 0x4020100804020100u64 && main_diag_mask_pos(2) == 0x2010080402010000u64 && main_diag_mask_pos(3) == 0x1008040201000000u64 && main_diag_mask_pos(4) == 0x804020100000000u64 && main_diag_mask_pos(5) == 0x402010000000000u64 && main_diag_mask_pos(6) == 0x201000000000000u64 && main_diag_mask_pos(7) == 0x100000000000000u64)
        by (bit_vector);
    assert(main_diag_mask_neg(1) == 0x80402010080402u64 && main_diag_mask_neg(2) == 0x804020100804u64 && main_diag_mask_neg(3) == 0x8040201008u64 && main_diag_mask_neg(4) == 0x80402010u64 && main_diag_mask_neg(5) == 0x804020u64 && main_diag_mask_neg(6) == 0x8040u64 && main_diag_mask_neg(7) == 0x80u64)
        by (bit_vector);
    if d == -7 {
        lemma_popcount_main_diag_neg_7();
    } else if d == -6 {
        lemma_popcount_main_diag_neg_6();
    } else if d == -5 {
        lemma_popcount_main_diag_neg_5();
    } else if d == -4 {
        lemma_popcount_main_diag_neg_4();
    } else if d == -3 {
        lemma_popcount_main_diag_neg_3();
    } else if d == -2 {
        lemma_popcount_main_diag_neg_2();
    } else if d == -1 {
        lemma_popcount_main_diag_neg_1();
    } else if d == 0 {
        lemma_popcount_main_diag_0();
    } else if d == 1 {
        lemma_popcount_main_diag_pos_1();
    } else if d == 2 {
        lemma_popcount_main_diag_pos_2();
    } else if d == 3 {
        lemma_popcount_main_diag_pos_3();
    } else if d == 4 {
        lemma_popcount_main_diag_pos_4();
    } else if d == 5 {
        lemma_popcount_main_diag_pos_5();
    } else if d == 6 {
        lemma_popcount_main_diag_pos_6();
    } else if d == 7 {
        lemma_popcount_main_diag_pos_7();
    }
}

/// Law: the anti-diagonal mask at offset `d` selects exactly `8 - |d|` cells.
pub proof fn lemma_sec_diag_mask_popcount(d: int)
    requires
        -7 <= d <= 7,
    ensures
        popcount(sec_diag_mask(d)) == 8 - (if d >= 0 { d } else { -d }),
{
    assert(sec_diag_mask_pos(1) == 0x204081020408000u64 && sec_diag_mask_pos(2) == 0x408102040800000u64 && sec_diag_mask_pos(3) == 0x810204080000000u64 && sec_diag_mask_pos(4) == 0x1020408000000000u64 && sec_diag_mask_pos(5) == 0x2040800000000000u64 && sec_diag_mask_pos(6) == 0x4080000000000000u64 && sec_diag_mask_pos(7) == 0x8000000000000000u64)
        by (bit_vector);
    assert(sec_diag_mask_neg(1) == 0x1020408102040u64 && sec_diag_mask_neg(2) == 0x10204081020u64 && sec_diag_mask_neg(3) == 0x102040810u64 && sec_diag_mask_neg(4) == 0x1020408u64 && sec_diag_mask_neg(5) == 0x10204u64 && sec_diag_mask_neg(6) == 0x102u64 && sec_diag_mask_neg(7) == 0x1u64)
        by (bit_vector);
    if d == -7 {
        lemma_popcount_sec_diag_neg_7();
    } else if d == -6 {
        lemma_popcount_sec_diag_neg_6();
    } else if d == -5 {
        lemma_popcount_sec_diag_neg_5();
    } else if d == -4 {
        lemma_popcount_sec_diag_neg_4();
    } else if d == -3 {
        lemma_popcount_sec_diag_neg_3();
    } else if d == -2 {
        lemma_popcount_sec_diag_neg_2();
    } else if d == -1 {
        lemma_popcount_sec_diag_neg_1();
    } else if d == 0 {
        lemma_popcount_sec_diag_0();
    } else if d == 1 {
        lemma_popcount_sec_diag_pos_1();
    } else if d == 2 {
        lemma_popcount_sec_diag_pos_2();
    } else if d == 3 {
        lemma_popcount_sec_diag_pos_3();
    } else if d == 4 {
        lemma_popcount_sec_diag_pos_4();
    } else if d == 5 {
        lemma_popcount_sec_diag_pos_5();
    } else if d == 6 {
        lemma_popcount_sec_diag_pos_6();
    } else if d == 7 {
        lemma_popcount_sec_diag_pos_7();
    }
}

} // verus!
