use vstd::prelude::*;

verus! {

/// A set of board cells, one bit per cell: cell One is the most significant
/// of the nine low bits (bit 8), cell Nine the least significant (bit 0).
pub type Bitboard = u32;

/// A cell of the board, and the move that places a mark on it.
#[derive(PartialEq, Eq, Structural, Debug, Clone, Copy)]
pub enum Move {
    One,
    Two,
    Three,
    Four,
    Five,
    Six,
    Seven,
    Eight,
    Nine,
}

impl Move {
    /// The cell's number: 1 for `One` through 9 for `Nine`.
    pub open spec fn number(self) -> int {
        match self {
            Move::One => 1,
            Move::Two => 2,
            Move::Three => 3,
            Move::Four => 4,
            Move::Five => 5,
            Move::Six => 6,
            Move::Seven => 7,
            Move::Eight => 8,
            Move::Nine => 9,
        }
    }

    /// The single bit that stands for this cell.
    pub open spec fn bit(self) -> Bitboard {
        match self {
            Move::One => 0b100000000,
            Move::Two => 0b010000000,
            Move::Three => 0b001000000,
            Move::Four => 0b000100000,
            Move::Five => 0b000010000,
            Move::Six => 0b000001000,
            Move::Seven => 0b000000100,
            Move::Eight => 0b000000010,
            Move::Nine => 0b000000001,
        }
    }

    /// The cell with the given number, for `n` in `1..=9`.
    pub fn from_int(n: u8) -> (r: Move)
        requires
            1 <= n <= 9,
        ensures
            r.number() == n,
    {
        match n {
            1 => Move::One,
            2 => Move::Two,
            3 => Move::Three,
            4 => Move::Four,
            5 => Move::Five,
            6 => Move::Six,
            7 => Move::Seven,
            8 => Move::Eight,
            _ => Move::Nine,
        }
    }

    /// The bitboard holding this cell alone.
    pub fn to_bitboard(&self) -> (r: Bitboard)
        ensures
            r == self.bit(),
    {
        match self {
            Move::One => 0b100000000,
            Move::Two => 0b010000000,
            Move::Three => 0b001000000,
            Move::Four => 0b000100000,
            Move::Five => 0b000010000,
            Move::Six => 0b000001000,
            Move::Seven => 0b000000100,
            Move::Eight => 0b000000010,
            Move::Nine => 0b000000001,
        }
    }

    /// The cell whose bit is `b`; `b` must be the bit of some cell.
    pub fn from_bitboard(b: Bitboard) -> (r: Move)
        requires
            is_cell_bit(b),
        ensures
            r.bit() == b,
    {
        match b {
            0b100000000 => Move::One,
            0b010000000 => Move::Two,
            0b001000000 => Move::Three,
            0b000100000 => Move::Four,
            0b000010000 => Move::Five,
            0b000001000 => Move::Six,
            0b000000100 => Move::Seven,
            0b000000010 => Move::Eight,
            _ => Move::Nine,
        }
    }
}

/// `b` holds exactly one bit, and that bit is a cell's.
pub open spec fn is_cell_bit(b: Bitboard) -> bool {
    exists|m: Move| #[trigger] m.bit() == b
}

/// Distinct cells have distinct bits, and each bit names its cell back.
pub proof fn lemma_bit_injective(a: Move, b: Move)
    ensures
        a.bit() == b.bit() <==> a == b,
{
}

/// The cell with number `n`, for `n` in `1..=9`.
pub open spec fn cell(n: int) -> Move {
    if n == 1 {
        Move::One
    } else if n == 2 {
        Move::Two
    } else if n == 3 {
        Move::Three
    } else if n == 4 {
        Move::Four
    } else if n == 5 {
        Move::Five
    } else if n == 6 {
        Move::Six
    } else if n == 7 {
        Move::Seven
    } else if n == 8 {
        Move::Eight
    } else {
        Move::Nine
    }
}

} // verus!
