use tictactoe::board::{Cell, Mark, State};
use tictactoe::game::{Difficulty, Game, Opponent};
use tictactoe::mapper::{digit_from_char, InputError, Keymap};

const E: Cell = Cell::Empty;
const X: Cell = Cell::Occupied(Mark::X);
const O: Cell = Cell::Occupied(Mark::O);

#[test]
fn detects_top_row_x() {
    let game = Game {
        grid: [X, X, X, O, O, E, E, E, E],
        ..Game::default()
    };
    assert_eq!(game.check_winner(), Some(Mark::X));
}

#[test]
fn detects_left_column_o() {
    let game = Game {
        grid: [O, E, E, O, E, E, O, E, E],
        ..Game::default()
    };
    assert_eq!(game.check_winner(), Some(Mark::O));
}

#[test]
fn tie_after_last_move() {
    // X   X   O
    // O   O   X
    // X   O   _   <- X fills the last cell; no line results
    let mut game = Game {
        grid: [X, X, O, O, O, X, X, O, E],
        turn: Mark::X,
        ..Game::default()
    };
    assert!(game.apply_move(8));
    assert_eq!(game.check_state(), State::Tie);
}

#[test]
fn full_winning_board_is_won_not_tie() {
    // a full board with a held line evaluates as won, never as tied
    let mut game = Game {
        grid: [X, X, X, O, O, X, O, X, O],
        ..Game::default()
    };
    assert_eq!(game.check_state(), State::Won(Mark::X));
}

#[test]
fn evaluation_is_idempotent() {
    let mut game = Game {
        grid: [X, O, E, O, X, E, E, E, E],
        ..Game::default()
    };
    let first = game.check_state();
    let second = game.check_state();
    assert_eq!(first, second);
    assert_eq!(game.check_winner(), game.check_winner());
}

#[test]
fn center_is_keymap_invariant() {
    assert_eq!(Keymap::Standard.map_digit(5), Ok((1, 1)));
    assert_eq!(Keymap::Numpad.map_digit(5), Ok((1, 1)));
}

#[test]
fn digit_one_per_keymap() {
    assert_eq!(Keymap::Standard.map_digit(1), Ok((0, 0)));
    assert_eq!(Keymap::Numpad.map_digit(1), Ok((2, 0)));
}

#[test]
fn keymaps_are_bijections() {
    for keymap in [Keymap::Standard, Keymap::Numpad] {
        let mut seen = [[false; 3]; 3];
        for digit in 1u32..=9 {
            let (row, col) = keymap.map_digit(digit).unwrap();
            assert!(row < 3 && col < 3);
            assert!(!seen[row][col], "two digits mapped to one cell");
            seen[row][col] = true;
        }
        assert!(seen.iter().all(|r| r.iter().all(|&c| c)));
    }
}

#[test]
fn standard_index_is_digit_minus_one() {
    for digit in 1u32..=9 {
        assert_eq!(Keymap::Standard.map_digit_index(digit), Ok(digit as usize - 1));
    }
}

#[test]
fn numpad_index_mirrors_rows() {
    assert_eq!(Keymap::Numpad.map_digit_index(1), Ok(6));
    assert_eq!(Keymap::Numpad.map_digit_index(5), Ok(4));
    assert_eq!(Keymap::Numpad.map_digit_index(9), Ok(2));
}

#[test]
fn rejects_digit_zero_and_out_of_range() {
    assert_eq!(
        Keymap::Standard.map_digit(0),
        Err(InputError::InvalidInputDigit)
    );
    assert_eq!(
        Keymap::Numpad.map_digit(0),
        Err(InputError::InvalidInputDigit)
    );
    assert_eq!(
        Keymap::Standard.map_digit(10),
        Err(InputError::InvalidInputDigit)
    );
    assert_eq!(
        Keymap::Numpad.map_digit_index(37),
        Err(InputError::InvalidInputDigit)
    );
}

#[test]
fn digit_characters() {
    assert_eq!(digit_from_char('1'), Some(1));
    assert_eq!(digit_from_char('5'), Some(5));
    assert_eq!(digit_from_char('9'), Some(9));
    assert_eq!(digit_from_char('0'), None);
    assert_eq!(digit_from_char('a'), None);
    assert_eq!(digit_from_char(' '), None);
}

#[test]
fn random_move_hits_empty_cell() {
    let game = Game {
        grid: [X, O, X, E, E, E, O, X, O],
        ..Game::default()
    };
    for _ in 0..20 {
        let choice = game.play_turn_computer_random();
        assert!((3..=5).contains(&choice));
        assert_eq!(game.grid[choice], Cell::Empty);
    }
}

#[test]
fn random_move_single_empty_cell() {
    let game = Game {
        grid: [X, O, X, O, E, O, X, O, X],
        ..Game::default()
    };
    assert_eq!(game.play_turn_computer_random(), 4);
}

#[test]
fn minimax_takes_the_win() {
    let game = Game {
        grid: [X, X, E, O, O, E, E, E, E],
        turn: Mark::X,
        ..Game::default()
    };
    assert_eq!(game.play_turn_computer_minimax(), 2);
}

#[test]
fn minimax_blocks_the_loss() {
    // O   _   _
    // O   X   _
    // _   _   X   <- O threatens the left column; X must answer at 6
    let game = Game {
        grid: [O, E, E, O, X, E, E, E, X],
        turn: Mark::X,
        ..Game::default()
    };
    assert_eq!(game.play_turn_computer_minimax(), 6);
}

#[test]
fn minimax_tie_break_is_first_in_row_major_order() {
    // from the empty board every opening move leads to a tie under optimal
    // play, so the fixed tie-break picks the first cell
    let game = Game {
        turn: Mark::X,
        difficulty: Difficulty::Hard,
        ..Game::default()
    };
    assert_eq!(game.play_turn_computer_minimax(), 0);
}

#[test]
fn minimax_self_play_ties() {
    let mut game = Game {
        difficulty: Difficulty::Hard,
        ..Game::default()
    };
    for _ in 0..9 {
        if game.check_state() != State::Ongoing {
            break;
        }
        let choice = game.play_turn_computer_minimax();
        assert!(game.apply_move(choice));
    }
    assert_eq!(game.check_state(), State::Tie);
}

#[test]
fn computer_dispatch_by_difficulty() {
    let easy = Game {
        grid: [X, O, X, O, E, O, X, O, X],
        ..Game::default()
    };
    assert_eq!(easy.play_turn_computer(), 4);
    let hard = Game {
        grid: [X, X, E, O, O, E, E, E, E],
        turn: Mark::X,
        difficulty: Difficulty::Hard,
        ..Game::default()
    };
    assert_eq!(hard.play_turn_computer(), 2);
}

#[test]
fn apply_move_places_and_flips_turn() {
    let mut game = Game::default();
    assert!(game.apply_move(4));
    assert_eq!(game.grid[4], Cell::Occupied(Mark::X));
    assert_eq!(game.turn, Mark::O);
}

#[test]
fn apply_move_on_occupied_cell_is_discarded() {
    let mut game = Game::default();
    assert!(game.apply_move(4));
    let before = game;
    assert!(!game.apply_move(4));
    assert_eq!(game, before);
    assert_eq!(game.turn, Mark::O);
}

#[test]
fn record_win_counts_per_mark() {
    let mut game = Game::default();
    game.record_win(Mark::X);
    game.record_win(Mark::X);
    game.record_win(Mark::O);
    assert_eq!(game.score_x, 2);
    assert_eq!(game.score_o, 1);
}

#[test]
fn reset_round_keeps_scores_and_configuration() {
    let mut game = Game {
        difficulty: Difficulty::Hard,
        keymap: Keymap::Standard,
        ..Game::default()
    };
    assert!(game.apply_move(0));
    assert!(game.apply_move(4));
    game.record_win(Mark::O);
    game.reset_round();
    assert_eq!(game.grid, [E; 9]);
    assert_eq!(game.state, State::Ongoing);
    assert_eq!(game.turn, Mark::X);
    assert_eq!(game.score_o, 1);
    assert_eq!(game.difficulty, Difficulty::Hard);
    assert_eq!(game.keymap, Keymap::Standard);
}

#[test]
fn computer_moves_only_on_its_turn() {
    let mut game = Game {
        opponent: Opponent::Computer,
        player: Mark::X,
        turn: Mark::X,
        ..Game::default()
    };
    assert!(!game.computer_to_move());
    game.turn = Mark::O;
    assert!(game.computer_to_move());
    game.opponent = Opponent::Human;
    assert!(!game.computer_to_move());
}

#[test]
fn mark_other_alternates() {
    assert_eq!(Mark::X.other(), Mark::O);
    assert_eq!(Mark::O.other(), Mark::X);
    assert_eq!(Mark::X.other().other(), Mark::X);
}
