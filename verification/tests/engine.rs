use tictactoe::board::{Cell, Grid, Mark, State};
use tictactoe::game::{Difficulty, Game, Opponent};
use tictactoe::mapper::Keymap;

const CELL_X: Cell = Cell::Occupied(Mark::X);
const CELL_O: Cell = Cell::Occupied(Mark::O);

#[test]
fn winner_none() {
    // O   X   X
    // X   O   O
    // X   O   X
    let grid = [
        CELL_O, CELL_X, CELL_X, CELL_X, CELL_O, CELL_O, CELL_X, CELL_O, CELL_X,
    ];
    let game = Game {
        grid,
        ..Game::default()
    };
    assert_eq!(game.check_winner(), None);
}

#[test]
fn winner_line_0_x() {
    // X   X   O
    // X   O   X
    // X   O   O   <- X holds the left column
    let grid = [
        CELL_X, CELL_X, CELL_O, CELL_X, CELL_O, CELL_X, CELL_X, CELL_O, CELL_O,
    ];
    let game = Game {
        grid,
        ..Game::default()
    };
    assert_eq!(game.check_winner(), Some(Mark::X));
}

#[test]
fn winner_line_0_o() {
    // O   X   O
    // O   O   X
    // O   X   X   <- O holds the left column
    let grid = [
        CELL_O, CELL_X, CELL_O, CELL_O, CELL_O, CELL_X, CELL_O, CELL_X, CELL_X,
    ];
    let game = Game {
        grid,
        ..Game::default()
    };
    assert_eq!(game.check_winner(), Some(Mark::O));
}

#[test]
fn winner_col_0_x() {
    // X   X   X   <- X holds the top row
    // O   X   O
    // X   O   O
    let grid = [
        CELL_X, CELL_X, CELL_X, CELL_O, CELL_X, CELL_O, CELL_X, CELL_O, CELL_O,
    ];
    let game = Game {
        grid,
        ..Game::default()
    };
    assert_eq!(game.check_winner(), Some(Mark::X));
}

#[test]
fn winner_prim_diag_x() {
    // X   O   X
    // O   X   O
    // X   O   X
    let grid = [
        CELL_X, CELL_O, CELL_X, CELL_O, CELL_X, CELL_O, CELL_X, CELL_O, CELL_X,
    ];
    let game = Game {
        grid,
        ..Game::default()
    };
    assert_eq!(game.check_winner(), Some(Mark::X));
}

#[test]
fn tie_1() {
    // X   X   O
    // O   X   X
    // X   O   O
    let grid = [
        CELL_X, CELL_X, CELL_O, CELL_O, CELL_X, CELL_X, CELL_X, CELL_O, CELL_O,
    ];
    let mut game = Game {
        grid,
        ..Game::default()
    };
    assert_eq!(game.check_state(), State::Tie);
}

#[test]
fn new_grid_default() {
    const E: Cell = Cell::Empty;
    const EMPTY_GRID: [Cell; 9] = [E, E, E, E, E, E, E, E, E];
    assert_eq!(Grid::default(), EMPTY_GRID);
}

#[test]
fn new_game_default() {
    assert_eq!(
        Game::default(),
        Game {
            grid: Grid::default(),
            state: State::Ongoing,
            player: Mark::X,
            turn: Mark::X,
            opponent: Opponent::Computer,
            difficulty: Difficulty::Easy,
            keymap: Keymap::Numpad,
            score_x: 0,
            score_o: 0,
        }
    )
}
