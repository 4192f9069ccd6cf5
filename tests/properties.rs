use tictactoe::board::{detect_full_board_condition, detect_win_condition};
use tictactoe::moves::Move;
use tictactoe::state::{GameState, GameStatus, MoveError, Turn};

const ALL_MOVES: [Move; 9] = [
    Move::One,
    Move::Two,
    Move::Three,
    Move::Four,
    Move::Five,
    Move::Six,
    Move::Seven,
    Move::Eight,
    Move::Nine,
];

fn play(moves: &[Move]) -> GameState {
    let mut state = GameState::new();
    for m in moves {
        state = state.make_move(*m);
    }
    state
}

#[test]
fn new_is_empty_board_with_x_to_move() {
    let state = GameState::new();
    assert_eq!(state.x_bitboard, 0);
    assert_eq!(state.o_bitboard, 0);
    assert_eq!(state.game_status, GameStatus::InProgress);
    assert!(state.move_history.is_empty());
    assert_eq!(state.turn, Turn::XTurn);
}

#[test]
fn legal_moves_plus_history_is_nine() {
    let mut state = GameState::new();
    assert_eq!(state.all_legal_moves().len(), 9);
    for m in [Move::Five, Move::One, Move::Nine, Move::Three] {
        state = state.make_move(m);
        assert_eq!(state.game_status, GameStatus::InProgress);
        assert_eq!(state.all_legal_moves().len() + state.move_history.len(), 9);
    }
    assert_eq!(state.all_legal_moves().len(), 5);
}

#[test]
fn terminal_states_have_no_legal_moves() {
    for status in [GameStatus::XWins, GameStatus::OWins, GameStatus::Draw] {
        let state = GameState {
            x_bitboard: 0,
            o_bitboard: 0,
            game_status: status,
            move_history: Vec::new(),
            turn: Turn::XTurn,
        };
        assert!(state.all_legal_moves().is_empty());
    }
}

#[test]
fn legal_moves_skip_occupied_cells_in_order() {
    let state = GameState {
        x_bitboard: 0b000000001,
        o_bitboard: 0b100000000,
        game_status: GameStatus::InProgress,
        move_history: Vec::new(),
        turn: Turn::XTurn,
    };
    let expected = vec![
        Move::Eight,
        Move::Seven,
        Move::Six,
        Move::Five,
        Move::Four,
        Move::Three,
        Move::Two,
    ];
    assert_eq!(state.all_legal_moves(), expected);
}

#[test]
fn unmake_after_make_restores_state() {
    let start = play(&[Move::Five, Move::One]);
    for m in start.all_legal_moves() {
        let after = start.make_move(m);
        assert_eq!(after.unmake_move(), start);
    }
}

#[test]
fn o_wins_on_a_column() {
    let state = play(&[Move::One, Move::Two, Move::Four, Move::Five, Move::Nine]);
    assert_eq!(state.game_status, GameStatus::InProgress);
    let state = state.make_move(Move::Eight);
    assert_eq!(state.o_bitboard, 0b010010010);
    assert_eq!(state.game_status, GameStatus::OWins);
    assert_eq!(state.turn, Turn::XTurn);
    assert!(state.all_legal_moves().is_empty());
}

#[test]
fn x_wins_on_a_diagonal() {
    let state = play(&[Move::One, Move::Two, Move::Five, Move::Three, Move::Nine]);
    assert_eq!(state.x_bitboard, 0b100010001);
    assert_eq!(state.game_status, GameStatus::XWins);
}

#[test]
fn full_board_without_line_is_draw() {
    let state = play(&[
        Move::One,
        Move::Two,
        Move::Three,
        Move::Five,
        Move::Four,
        Move::Six,
        Move::Eight,
        Move::Seven,
        Move::Nine,
    ]);
    assert_eq!(state.x_bitboard | state.o_bitboard, 0b111111111);
    assert_eq!(state.game_status, GameStatus::Draw);
    assert!(state.all_legal_moves().is_empty());
}

#[test]
fn winning_on_last_cell_is_a_win_not_a_draw() {
    let state = play(&[
        Move::One,
        Move::Two,
        Move::Three,
        Move::Five,
        Move::Four,
        Move::Six,
        Move::Eight,
        Move::Nine,
    ]);
    assert_eq!(state.game_status, GameStatus::InProgress);
    let state = state.make_move(Move::Seven);
    assert_eq!(state.x_bitboard | state.o_bitboard, 0b111111111);
    assert_eq!(state.game_status, GameStatus::XWins);
}

#[test]
fn try_make_move_rejects_occupied_cell() {
    let state = play(&[Move::Five]);
    assert_eq!(state.try_make_move(Move::Five), Err(MoveError::IllegalMove));
}

#[test]
fn try_make_move_rejects_move_after_game_over() {
    let state = play(&[Move::One, Move::Four, Move::Two, Move::Five, Move::Three]);
    assert_eq!(state.game_status, GameStatus::XWins);
    assert_eq!(state.try_make_move(Move::Nine), Err(MoveError::IllegalMove));
}

#[test]
fn try_make_move_accepts_legal_move() {
    let state = play(&[Move::Five]);
    let expected = state.make_move(Move::One);
    assert_eq!(state.try_make_move(Move::One), Ok(expected));
}

#[test]
fn undo_of_winning_move_reopens_game() {
    let won = play(&[Move::One, Move::Four, Move::Two, Move::Five, Move::Three]);
    assert_eq!(won.game_status, GameStatus::XWins);
    let undone = won.unmake_move();
    assert_eq!(undone.game_status, GameStatus::InProgress);
    assert_eq!(undone.turn, Turn::XTurn);
    assert_eq!(undone, play(&[Move::One, Move::Four, Move::Two, Move::Five]));
}

#[test]
fn undo_with_empty_history_keeps_terminal_status() {
    let state = GameState {
        x_bitboard: 0b111000000,
        o_bitboard: 0b000110000,
        game_status: GameStatus::XWins,
        move_history: Vec::new(),
        turn: Turn::OTurn,
    };
    assert_eq!(state.unmake_move(), state);
}

#[test]
fn every_line_is_a_win() {
    let lines = [
        0b111000000,
        0b000111000,
        0b000000111,
        0b100100100,
        0b010010010,
        0b001001001,
        0b100010001,
        0b001010100,
    ];
    for line in lines {
        assert!(detect_win_condition(line));
        assert!(detect_win_condition(line | 0b000000000));
    }
    assert!(detect_win_condition(0b111111111));
}

#[test]
fn boards_without_a_line_are_not_wins() {
    for b in [0, 0b110110000, 0b101010010, 0b011100001, 0b110000011] {
        assert!(!detect_win_condition(b));
    }
}

#[test]
fn full_board_detection() {
    assert!(detect_full_board_condition(0b111111111));
    assert!(!detect_full_board_condition(0b111111110));
    assert!(!detect_full_board_condition(0));
}

#[test]
fn move_bits_round_trip() {
    for (i, m) in ALL_MOVES.iter().enumerate() {
        let number = (i + 1) as u8;
        assert_eq!(Move::from_int(number), *m);
        let bit = m.to_bitboard();
        assert_eq!(bit, 1u32 << (9 - number as u32));
        assert_eq!(Move::from_bitboard(bit), *m);
    }
}

#[test]
fn undo_clears_rather_than_toggles_the_bit() {
    let state = GameState {
        x_bitboard: 0,
        o_bitboard: 0,
        game_status: GameStatus::InProgress,
        move_history: vec![Move::One],
        turn: Turn::OTurn,
    };
    let undone = state.unmake_move();
    assert_eq!(undone.x_bitboard, 0);
    assert_eq!(undone.o_bitboard, 0);
    assert_eq!(undone.turn, Turn::XTurn);
    assert!(undone.move_history.is_empty());
}
