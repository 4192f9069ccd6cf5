use vstd::prelude::*;
use crate::moves::{cell, Move};
use crate::board::FULL_BOARD;
use crate::state::{free_in, scan_order, turn_at, GameStateView, GameStatus};

verus! {

broadcast use vstd::seq_lib::group_filter_ensures;

/// Every cell stands in the scan order.
proof fn lemma_scan_order_has_every_cell(m: Move)
    ensures
        scan_order()[9 - m.number()] == m,
        scan_order().contains(m),
{
    assert(scan_order()[9 - m.number()] == cell(m.number()));
}

/// A subsequence of a sequence whose cell numbers fall keeps them falling.
proof fn lemma_filter_keeps_descending(s: Seq<Move>, p: spec_fn(Move) -> bool)
    requires
        forall|i: int, j: int| 0 <= i < j < s.len() ==> s[i].number() > s[j].number(),
    ensures
        forall|i: int, j: int|
            0 <= i < j < s.filter(p).len() ==> s.filter(p)[i].number() > s.filter(p)[j].number(),
    decreases s.len(),
{
    reveal(Seq::filter);
    if s.len() > 0 {
        let rest = s.drop_last();
        lemma_filter_keeps_descending(rest, p);
        let f = rest.filter(p);
        assert forall|i: int| 0 <= i < f.len() implies f[i].number() > s.last().number() by {
            assert(f.contains(f[i]));
            rest.lemma_filter_contains_rev(p, f[i]);
            let k = choose|k: int| 0 <= k < rest.len() && rest[k] == f[i];
            assert(s[k] == rest[k]);
        }
    }
}

/// A move is among the legal moves exactly when it is legal: the game is
/// open and its cell is empty.
pub proof fn lemma_legal_moves_contains(s: GameStateView, m: Move)
    ensures
        s.legal_moves().contains(m) <==> s.is_legal(m),
{
    lemma_scan_order_has_every_cell(m);
    if s.game_status == GameStatus::InProgress {
        let f = scan_order().filter(free_in(s.occupied()));
        if f.contains(m) {
            let k = choose|k: int| 0 <= k < f.len() && f[k] == m;
            assert(free_in(s.occupied())(f[k]));
        }
        if s.is_legal(m) {
            assert(f.contains(scan_order()[9 - m.number()]));
        }
    }
}

/// The legal moves come from cell Nine toward cell One: each move's cell
/// number is below that of every move listed before it, so no move is
/// listed twice.
pub proof fn lemma_legal_moves_descending(s: GameStateView)
    ensures
        forall|i: int, j: int|
            0 <= i < j < s.legal_moves().len() ==> s.legal_moves()[i].number()
                > s.legal_moves()[j].number(),
        s.legal_moves().no_duplicates(),
{
    lemma_filter_keeps_descending(scan_order(), free_in(s.occupied()));
}

/// Once the game is over no move is legal.
pub proof fn lemma_terminal_has_no_moves(s: GameStateView)
    requires
        s.game_status != GameStatus::InProgress,
    ensures
        s.legal_moves().len() == 0,
{
}

/// Taking back a legal move just made gives back the position it was made
/// in.
pub proof fn lemma_unmake_after_make(s: GameStateView, m: Move)
    requires
        s.is_legal(m),
    ensures
        s.made(m).unmade() == s,
{
    let b = m.bit();
    let x = s.x_bitboard;
    let o = s.o_bitboard;
    assert((x | o) & b == 0 ==> (x | b) & !b == x && (o | b) & !b == o) by (bit_vector);
    assert(s.made(m).move_history.drop_last() =~= s.move_history);
}

/// In a reachable open position, the legal moves and the moves played
/// together number nine.
pub proof fn lemma_legal_moves_count(s: GameStateView)
    requires
        s.well_formed(),
        s.game_status == GameStatus::InProgress,
    ensures
        s.legal_moves().len() + s.move_history.len() == 9,
{
    broadcast use vstd::seq_lib::seq_to_set_is_finite;
    broadcast use vstd::set_lib::lemma_set_disjoint_lens;

    let free = free_in(s.occupied());
    let legal = s.legal_moves();
    let all = scan_order().to_set();
    let l = legal.to_set();
    let h = s.move_history.to_set();
    assert(scan_order().no_duplicates()) by {
        assert forall|i: int, j: int| 0 <= i < j < 9 implies scan_order()[i].number()
            > scan_order()[j].number() by {}
    }
    scan_order().unique_seq_to_set();
    lemma_legal_moves_descending(s);
    legal.unique_seq_to_set();
    s.move_history.unique_seq_to_set();
    assert forall|m: Move| all.contains(m) <==> (l.contains(m) || h.contains(m)) by {
        lemma_scan_order_has_every_cell(m);
        lemma_legal_moves_contains(s, m);
    }
    assert(l.disjoint(h)) by {
        assert forall|m: Move| !(l.contains(m) && h.contains(m)) by {
            lemma_legal_moves_contains(s, m);
        }
    }
    assert(l + h =~= all);
}

/// Two cells' bits meet only when the cells are the same, and every cell's
/// bit lies on the board.
proof fn lemma_cell_bits(a: Move, b: Move)
    ensures
        a.bit() & b.bit() == (if a == b { a.bit() } else { 0 }),
        a.bit() | FULL_BOARD == FULL_BOARD,
        a.bit() != 0,
{
    let x = a.bit();
    let y = b.bit();
    let k = (9 - a.number()) as u32;
    let l = (9 - b.number()) as u32;
    assert(x == 1u32 << k && y == 1u32 << l) by {
        assert(1u32 << 0u32 == 1) by (bit_vector);
        assert(1u32 << 1u32 == 2) by (bit_vector);
        assert(1u32 << 2u32 == 4) by (bit_vector);
        assert(1u32 << 3u32 == 8) by (bit_vector);
        assert(1u32 << 4u32 == 16) by (bit_vector);
        assert(1u32 << 5u32 == 32) by (bit_vector);
        assert(1u32 << 6u32 == 64) by (bit_vector);
        assert(1u32 << 7u32 == 128) by (bit_vector);
        assert(1u32 << 8u32 == 256) by (bit_vector);
    }
    assert(k < 9 && l < 9 && x == 1u32 << k && y == 1u32 << l ==> {
        &&& x & y == (if k == l { x } else { 0 })
        &&& x | 0x1ff == 0x1ff
        &&& x != 0
    }) by (bit_vector);
}

/// The empty board is well formed.
pub proof fn lemma_initial_well_formed()
    ensures
        GameStateView::initial().well_formed(),
{
    let s = GameStateView::initial();
    assert(0u32 & 0u32 == 0 && (0u32 | 0u32) | 0x1ff == 0x1ff) by (bit_vector);
    assert forall|m: Move| !free_in(s.occupied())(m) implies s.move_history.contains(m) by {
        let b = m.bit();
        assert((0u32 | 0u32) & b == 0) by (bit_vector);
    }
}

/// A legal move keeps a well-formed position well formed.
pub proof fn lemma_make_preserves_well_formed(s: GameStateView, m: Move)
    requires
        s.well_formed(),
        s.is_legal(m),
    ensures
        s.made(m).well_formed(),
{
    let t = s.made(m);
    let b = m.bit();
    let x = s.x_bitboard;
    let o = s.o_bitboard;
    lemma_cell_bits(m, m);
    assert((x & o == 0 && (x | o) & b == 0 && (x | o) | 0x1ff == 0x1ff && b | 0x1ff == 0x1ff) ==> {
        &&& (x | b) & o == 0
        &&& x & (o | b) == 0
        &&& ((x | b) | o) | 0x1ff == 0x1ff
        &&& (x | (o | b)) | 0x1ff == 0x1ff
        &&& ((x | b) | o) == (x | o) | b
        &&& (x | (o | b)) == (x | o) | b
    }) by (bit_vector);
    assert(!s.move_history.contains(m));
    let occ = s.occupied();
    assert(t.occupied() == occ | b);
    assert forall|c: Move| #[trigger] t.move_history.contains(c) <==> !free_in(t.occupied())(c) by {
        lemma_cell_bits(m, c);
        let cb = c.bit();
        assert((occ | b) & cb == (occ & cb) | (b & cb)) by (bit_vector);
        if c != m {
            assert(((occ & cb) | 0) == occ & cb) by (bit_vector);
            if t.move_history.contains(c) {
                let k = choose|k: int| 0 <= k < t.move_history.len() && t.move_history[k] == c;
                assert(s.move_history[k] == c);
            }
            if s.move_history.contains(c) {
                let k = choose|k: int| 0 <= k < s.move_history.len() && s.move_history[k] == c;
                assert(t.move_history[k] == c);
            }
        } else {
            assert(b & cb != 0 ==> (occ & cb) | (b & cb) != 0) by (bit_vector);
            assert(t.move_history[s.move_history.len() as int] == c);
        }
    }
    assert forall|i: int| 0 <= i < t.move_history.len() implies t.board_of(turn_at(i)) & #[trigger] t.move_history[i].bit()
        == t.move_history[i].bit() by {
        let cb = t.move_history[i].bit();
        let nb = t.board_of(turn_at(i));
        let ob = s.board_of(turn_at(i));
        assert(ob & cb == cb ==> (ob | b) & cb == cb) by (bit_vector);
        assert((ob | b) & b == b) by (bit_vector);
    }
}

/// Taking back a move keeps a well-formed position well formed.
pub proof fn lemma_unmake_preserves_well_formed(s: GameStateView)
    requires
        s.well_formed(),
    ensures
        s.unmade().well_formed(),
{
    let n = s.move_history.len() as int;
    if n > 0 {
        let t = s.unmade();
        let m = s.move_history[n - 1];
        let b = m.bit();
        let mover = turn_at(n - 1);
        assert(t.turn == mover);
        let x = s.x_bitboard;
        let o = s.o_bitboard;
        let occ = s.occupied();
        lemma_cell_bits(m, m);
        assert(s.board_of(mover) & b == b);
        assert(x & o == 0 && (x & b == b || o & b == b) ==> {
            &&& (x & b == b ==> (x & !b) & o == 0 && (x & !b) | o == occ & !b)
            &&& (o & b == b ==> x & (o & !b) == 0 && x | (o & !b) == occ & !b)
            &&& occ & b == b
        }) by (bit_vector)
            requires
                occ == x | o,
        ;
        assert(occ | 0x1ff == 0x1ff ==> (occ & !b) | 0x1ff == 0x1ff) by (bit_vector)
            requires
                occ & b == b,
        ;
        assert(t.occupied() == occ & !b);
        assert(t.move_history =~= s.move_history.subrange(0, n - 1));
        assert forall|c: Move| #[trigger] t.move_history.contains(c) <==> !free_in(t.occupied())(c) by {
            lemma_cell_bits(m, c);
            let cb = c.bit();
            assert((occ & !b) & cb == (occ & cb) & !(b & cb)) by (bit_vector);
            if c == m {
                assert((occ & b) & !(b & b) == 0) by (bit_vector)
                    requires
                        occ & b == b,
                ;
                if t.move_history.contains(c) {
                    let k = choose|k: int| 0 <= k < t.move_history.len() && t.move_history[k] == c;
                    assert(s.move_history[k] == s.move_history[n - 1]);
                }
            } else {
                assert((occ & cb) & !0u32 == occ & cb) by (bit_vector);
                if t.move_history.contains(c) {
                    let k = choose|k: int| 0 <= k < t.move_history.len() && t.move_history[k] == c;
                    assert(s.move_history[k] == c);
                }
                if s.move_history.contains(c) {
                    let k = choose|k: int| 0 <= k < s.move_history.len() && s.move_history[k] == c;
                    assert(k != n - 1);
                    assert(t.move_history[k] == c);
                }
            }
        }
        assert forall|i: int| 0 <= i < t.move_history.len() implies t.board_of(turn_at(i)) & #[trigger] t.move_history[i].bit()
            == t.move_history[i].bit() by {
            let c = t.move_history[i];
            assert(c == s.move_history[i]);
            assert(c != m);
            lemma_cell_bits(m, c);
            let cb = c.bit();
            let ob = s.board_of(turn_at(i));
            assert(ob & cb == cb && b & cb == 0 ==> (ob & !b) & cb == cb) by (bit_vector);
        }
    }
}

/// A move onto a cell that either player already holds is never legal: it
/// is not among the legal moves, `make_move` does not admit it, and
/// `try_make_move` answers `IllegalMove`.
pub proof fn lemma_occupied_cell_is_illegal(s: GameStateView, m: Move)
    requires
        s.occupied() & m.bit() != 0,
    ensures
        !s.is_legal(m),
        !s.legal_moves().contains(m),
{
    lemma_legal_moves_contains(s, m);
}

} // verus!
