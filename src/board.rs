use vstd::prelude::*;
use crate::moves::Bitboard;

verus! {

/// Every cell occupied.
pub const FULL_BOARD: Bitboard = 0b111111111;

/// The top row.
pub const WIN_CONDITION_1: Bitboard = 0b111000000;

/// The middle row.
pub const WIN_CONDITION_2: Bitboard = 0b000111000;

/// The bottom row.
pub const WIN_CONDITION_3: Bitboard = 0b000000111;

/// The left column.
pub const WIN_CONDITION_4: Bitboard = 0b100100100;

/// The middle column.
pub const WIN_CONDITION_5: Bitboard = 0b010010010;

/// The right column.
pub const WIN_CONDITION_6: Bitboard = 0b001001001;

/// The diagonal from cell One to cell Nine.
pub const WIN_CONDITION_7: Bitboard = 0b100010001;

/// The diagonal from cell Three to cell Seven.
pub const WIN_CONDITION_8: Bitboard = 0b001010100;

/// Every cell of `pattern` is set in `b`.
pub open spec fn covers(b: Bitboard, pattern: Bitboard) -> bool {
    b & pattern == pattern
}

/// `b` holds a complete row, column or diagonal.
pub open spec fn is_win(b: Bitboard) -> bool {
    ||| covers(b, WIN_CONDITION_1)
    ||| covers(b, WIN_CONDITION_2)
    ||| covers(b, WIN_CONDITION_3)
    ||| covers(b, WIN_CONDITION_4)
    ||| covers(b, WIN_CONDITION_5)
    ||| covers(b, WIN_CONDITION_6)
    ||| covers(b, WIN_CONDITION_7)
    ||| covers(b, WIN_CONDITION_8)
}

/// Whether `b` is exactly the full board.
pub fn detect_full_board_condition(b: Bitboard) -> (r: bool)
    ensures
        r == (b == FULL_BOARD),
{
    b == FULL_BOARD
}

/// Whether `b` holds one of the eight winning lines.
pub fn detect_win_condition(b: Bitboard) -> (r: bool)
    ensures
        r == is_win(b),
{
    let test_1 = b & WIN_CONDITION_1 == WIN_CONDITION_1;
    let test_2 = b & WIN_CONDITION_2 == WIN_CONDITION_2;
    let test_3 = b & WIN_CONDITION_3 == WIN_CONDITION_3;
    let test_4 = b & WIN_CONDITION_4 == WIN_CONDITION_4;
    let test_5 = b & WIN_CONDITION_5 == WIN_CONDITION_5;
    let test_6 = b & WIN_CONDITION_6 == WIN_CONDITION_6;
    let test_7 = b & WIN_CONDITION_7 == WIN_CONDITION_7;
    let test_8 = b & WIN_CONDITION_8 == WIN_CONDITION_8;
    test_1 || test_2 || test_3 || test_4 || test_5 || test_6 || test_7 || test_8
}

} // verus!
