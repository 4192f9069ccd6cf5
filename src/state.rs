use vstd::prelude::*;
use crate::board::{detect_full_board_condition, detect_win_condition, is_win, FULL_BOARD};
use crate::moves::{cell, Bitboard, Move};

verus! {

/// Whose mark is placed next.
#[derive(PartialEq, Eq, Structural, Debug, Clone, Copy)]
pub enum Turn {
    XTurn,
    OTurn,
}

/// The outcome of a position: still open, or one of the three endings.
#[derive(PartialEq, Eq, Structural, Debug, Clone, Copy)]
pub enum GameStatus {
    XWins,
    OWins,
    Draw,
    InProgress,
}

/// The one way a move can fail: its cell is taken, or the game is over.
#[derive(PartialEq, Eq, Structural, Debug, Clone, Copy)]
pub enum MoveError {
    IllegalMove,
}

/// A position: both players' marks, the outcome so far, the moves played
/// in order, and whose turn it is.
#[derive(PartialEq, Debug, Clone)]
pub struct GameState {
    pub x_bitboard: Bitboard,
    pub o_bitboard: Bitboard,
    pub game_status: GameStatus,
    pub move_history: Vec<Move>,
    pub turn: Turn,
}

/// The mathematical value of a `GameState`.
pub struct GameStateView {
    pub x_bitboard: Bitboard,
    pub o_bitboard: Bitboard,
    pub game_status: GameStatus,
    pub move_history: Seq<Move>,
    pub turn: Turn,
}

impl View for GameState {
    type V = GameStateView;

    open spec fn view(&self) -> GameStateView {
        GameStateView {
            x_bitboard: self.x_bitboard,
            o_bitboard: self.o_bitboard,
            game_status: self.game_status,
            move_history: self.move_history@,
            turn: self.turn,
        }
    }
}

/// The player who moves after `t`.
pub open spec fn other(t: Turn) -> Turn {
    match t {
        Turn::XTurn => Turn::OTurn,
        Turn::OTurn => Turn::XTurn,
    }
}

/// The player who makes the move at index `i` of a history: X on even
/// indices, O on odd ones.
pub open spec fn turn_at(i: int) -> Turn {
    if i % 2 == 0 {
        Turn::XTurn
    } else {
        Turn::OTurn
    }
}

/// Every cell, in the order in which legal moves are listed: Nine first,
/// One last (the bitboard read from its least significant bit up).
pub open spec fn scan_order() -> Seq<Move> {
    Seq::new(9, |i: int| cell(9 - i))
}

/// Holds of the cells that `occupied` leaves empty.
pub open spec fn free_in(occupied: Bitboard) -> spec_fn(Move) -> bool {
    |m: Move| occupied & m.bit() == 0
}

/// The status after `mover` has moved, leaving `mover_board` as its marks and
/// `occupied` as all marks on the board.
pub open spec fn status_after(mover: Turn, mover_board: Bitboard, occupied: Bitboard) -> GameStatus {
    if is_win(mover_board) {
        match mover {
            Turn::XTurn => GameStatus::XWins,
            Turn::OTurn => GameStatus::OWins,
        }
    } else if occupied == FULL_BOARD {
        GameStatus::Draw
    } else {
        GameStatus::InProgress
    }
}

impl GameStateView {
    /// The empty board, X to move.
    pub open spec fn initial() -> GameStateView {
        GameStateView {
            x_bitboard: 0,
            o_bitboard: 0,
            game_status: GameStatus::InProgress,
            move_history: Seq::empty(),
            turn: Turn::XTurn,
        }
    }

    /// The marks of the player `t`.
    pub open spec fn board_of(self, t: Turn) -> Bitboard {
        match t {
            Turn::XTurn => self.x_bitboard,
            Turn::OTurn => self.o_bitboard,
        }
    }

    /// The position is one that play can reach: no cell is held by both
    /// players, no mark lies off the board, the history holds each move once
    /// and exactly the occupied cells, each move's mark is on the board of
    /// the player who made it (X on even indices), and the turn follows the
    /// parity of the history.
    pub open spec fn well_formed(self) -> bool {
        &&& self.x_bitboard & self.o_bitboard == 0
        &&& self.occupied() | FULL_BOARD == FULL_BOARD
        &&& self.move_history.no_duplicates()
        &&& forall|m: Move|
            #[trigger] self.move_history.contains(m) <==> !free_in(self.occupied())(m)
        &&& forall|i: int|
            0 <= i < self.move_history.len() ==> self.board_of(turn_at(i)) & #[trigger] self.move_history[i].bit()
                == self.move_history[i].bit()
        &&& self.turn == turn_at(self.move_history.len() as int)
    }

    /// The cells taken by either player.
    pub open spec fn occupied(self) -> Bitboard {
        self.x_bitboard | self.o_bitboard
    }

    /// `m` may be played: the game is open and the cell is empty.
    pub open spec fn is_legal(self, m: Move) -> bool {
        self.game_status == GameStatus::InProgress && free_in(self.occupied())(m)
    }

    /// The legal moves, Nine first: none once the game is over, else every
    /// empty cell.
    pub open spec fn legal_moves(self) -> Seq<Move> {
        if self.game_status == GameStatus::InProgress {
            scan_order().filter(free_in(self.occupied()))
        } else {
            Seq::empty()
        }
    }

    /// The position after the player to move has played `m`.
    pub open spec fn made(self, m: Move) -> GameStateView {
        let x = match self.turn {
            Turn::XTurn => self.x_bitboard | m.bit(),
            Turn::OTurn => self.x_bitboard,
        };
        let o = match self.turn {
            Turn::XTurn => self.o_bitboard,
            Turn::OTurn => self.o_bitboard | m.bit(),
        };
        let mover_board = match self.turn {
            Turn::XTurn => x,
            Turn::OTurn => o,
        };
        GameStateView {
            x_bitboard: x,
            o_bitboard: o,
            game_status: status_after(self.turn, mover_board, x | o),
            move_history: self.move_history.push(m),
            turn: other(self.turn),
        }
    }

    /// The position with the last move taken back and the game reopened;
    /// unchanged when no move has been played.
    pub open spec fn unmade(self) -> GameStateView {
        if self.move_history.len() == 0 {
            self
        } else {
            let bit = self.move_history.last().bit();
            let mover = other(self.turn);
            GameStateView {
                x_bitboard: match mover {
                    Turn::XTurn => self.x_bitboard & !bit,
                    Turn::OTurn => self.x_bitboard,
                },
                o_bitboard: match mover {
                    Turn::XTurn => self.o_bitboard,
                    Turn::OTurn => self.o_bitboard & !bit,
                },
                game_status: GameStatus::InProgress,
                move_history: self.move_history.drop_last(),
                turn: mover,
            }
        }
    }
}

/// A fresh vector holding the moves of `h` in the same order.
fn copy_history(h: &Vec<Move>) -> (r: Vec<Move>)
    ensures
        r@ == h@,
{
    let mut r: Vec<Move> = Vec::with_capacity(h.len());
    let mut i: usize = 0;
    while i < h.len()
        invariant
            i <= h.len(),
            r@ == h@.take(i as int),
        decreases h.len() - i,
    {
        r.push(h[i]);
        i = i + 1;
        proof {
            assert(r@ =~= h@.take(i as int));
        }
    }
    proof {
        assert(h@.take(i as int) =~= h@);
    }
    r
}

impl GameState {
    /// The empty board: no marks, game open, X to move, no moves played.
    pub fn new() -> (r: GameState)
        ensures
            r@ == GameStateView::initial(),
    {
        GameState {
            x_bitboard: 0,
            o_bitboard: 0,
            game_status: GameStatus::InProgress,
            move_history: Vec::new(),
            turn: Turn::XTurn,
        }
    }

    /// The position after the player to move plays `m`: the mark goes on the
    /// mover's board, the status is recomputed from the mover's marks and the
    /// whole board, `m` is appended to the history and the turn passes.
    /// `m` must be legal.
    pub fn make_move(&self, m: Move) -> (r: GameState)
        requires
            self@.is_legal(m),
        ensures
            r@ == self@.made(m),
    {
        let move_bitboard = m.to_bitboard();
        let new_x_bitboard = match self.turn {
            Turn::XTurn => self.x_bitboard | move_bitboard,
            Turn::OTurn => self.x_bitboard,
        };
        let new_o_bitboard = match self.turn {
            Turn::XTurn => self.o_bitboard,
            Turn::OTurn => self.o_bitboard | move_bitboard,
        };
        let new_game_status = match self.turn {
            Turn::XTurn => {
                if detect_win_condition(new_x_bitboard) {
                    GameStatus::XWins
                } else if detect_full_board_condition(new_x_bitboard | new_o_bitboard) {
                    GameStatus::Draw
                } else {
                    GameStatus::InProgress
                }
            },
            Turn::OTurn => {
                if detect_win_condition(new_o_bitboard) {
                    GameStatus::OWins
                } else if detect_full_board_condition(new_x_bitboard | new_o_bitboard) {
                    GameStatus::Draw
                } else {
                    GameStatus::InProgress
                }
            },
        };
        let new_turn = match self.turn {
            Turn::XTurn => Turn::OTurn,
            Turn::OTurn => Turn::XTurn,
        };
        let mut new_move_history = copy_history(&self.move_history);
        new_move_history.push(m);
        GameState {
            x_bitboard: new_x_bitboard,
            o_bitboard: new_o_bitboard,
            game_status: new_game_status,
            move_history: new_move_history,
            turn: new_turn,
        }
    }

    /// `make_move` for any `m`: the new position when `m` is legal, else
    /// `IllegalMove`.
    pub fn try_make_move(&self, m: Move) -> (r: Result<GameState, MoveError>)
        ensures
            self@.is_legal(m) <==> r is Ok,
            r matches Ok(s) ==> s@ == self@.made(m),
            r matches Err(e) ==> e == MoveError::IllegalMove,
    {
        let occupied = self.x_bitboard | self.o_bitboard;
        if self.game_status == GameStatus::InProgress && occupied & m.to_bitboard() == 0 {
            Ok(self.make_move(m))
        } else {
            Err(MoveError::IllegalMove)
        }
    }

    /// The position with the last move taken back: its mark is cleared from
    /// the board of the player who made it, that player is to move again, the
    /// game is reopened and the move leaves the history. With no move played
    /// the result equals `self`.
    pub fn unmake_move(&self) -> (r: GameState)
        ensures
            r@ == self@.unmade(),
            self.move_history@.len() == 0 ==> r@ == self@,
            self.move_history@.len() > 0 ==> r.game_status == GameStatus::InProgress,
    {
        let n = self.move_history.len();
        if n == 0 {
            return GameState {
                x_bitboard: self.x_bitboard,
                o_bitboard: self.o_bitboard,
                game_status: self.game_status,
                move_history: copy_history(&self.move_history),
                turn: self.turn,
            };
        }
        let move_bitboard = self.move_history[n - 1].to_bitboard();
        let new_turn = match self.turn {
            Turn::XTurn => Turn::OTurn,
            Turn::OTurn => Turn::XTurn,
        };
        let new_x_bitboard = match self.turn {
            Turn::OTurn => self.x_bitboard & !move_bitboard,
            Turn::XTurn => self.x_bitboard,
        };
        let new_o_bitboard = match self.turn {
            Turn::XTurn => self.o_bitboard & !move_bitboard,
            Turn::OTurn => self.o_bitboard,
        };
        let mut new_move_history = copy_history(&self.move_history);
        new_move_history.pop();
        proof {
            assert(new_move_history@ =~= self.move_history@.drop_last());
        }
        GameState {
            x_bitboard: new_x_bitboard,
            o_bitboard: new_o_bitboard,
            game_status: GameStatus::InProgress,
            move_history: new_move_history,
            turn: new_turn,
        }
    }

    /// The legal moves, listed from cell Nine toward cell One: empty once
    /// the game is over, else every cell that neither player holds.
    pub fn all_legal_moves(&self) -> (r: Vec<Move>)
        ensures
            r@ == self@.legal_moves(),
    {
        match self.game_status {
            GameStatus::InProgress => {
                let occupied = self.x_bitboard | self.o_bitboard;
                let mut legal: Vec<Move> = Vec::new();
                let mut n: u8 = 9;
                while n >= 1
                    invariant
                        n <= 9,
                        occupied == self@.occupied(),
                        legal@ == scan_order().take(9 - n).filter(free_in(occupied)),
                    decreases n,
                {
                    let m = Move::from_int(n);
                    proof {
                        let done = scan_order().take(9 - n);
                        assert(scan_order().take(9 - n + 1) =~= done.push(m));
                        done.lemma_filter_push(m, free_in(occupied));
                    }
                    if occupied & m.to_bitboard() == 0 {
                        legal.push(m);
                    }
                    n = n - 1;
                }
                proof {
                    assert(scan_order().take(9) =~= scan_order());
                }
                legal
            },
            _ => Vec::new(),
        }
    }
}

} // verus!
