//! The game session and its turn state machine: configuration, board and
//! turn ownership for one round, score bookkeeping, and the computer's
//! move dispatch.

use vstd::prelude::*;
use crate::board::{
    all_empty, board_full, other_mark, state_spec, winner_spec, state_of, winner_of, Cell, Grid,
    Mark, State,
};
use crate::mapper::Keymap;
use crate::strategy::{best_move, move_value, random_move};

verus! {

broadcast use vstd::array::group_array_axioms;

/// Whom the configured human plays against.
#[derive(Copy, Clone, Debug, PartialEq, Eq, Structural)]
pub enum Opponent {
    Computer,
    Human,
}

/// The computer's skill: uniform-random choice, or full minimax search.
#[derive(Copy, Clone, Debug, PartialEq, Eq, Structural)]
pub enum Difficulty {
    Easy,
    Hard,
}

/// One game session: the board and turn of the current round, the round
/// state as last evaluated, the per-session configuration, and the running
/// score. The board and turn are owned and mutated only through the round
/// state machine below.
#[derive(Copy, Clone, Debug, PartialEq, Eq)]
pub struct Game {
    pub grid: Grid,
    pub state: State,
    pub player: Mark,
    pub turn: Mark,
    pub opponent: Opponent,
    pub difficulty: Difficulty,
    pub keymap: Keymap,
    pub score_x: u32,
    pub score_o: u32,
}

impl Default for Game {
    /// A fresh session: empty board, an ongoing round with X to move, a
    /// computer opponent on easy with the numpad keymap, zero scores.
    fn default() -> (r: Self)
        ensures
            all_empty(r.grid@),
            r.state == State::Ongoing,
            r.player == Mark::X,
            r.turn == Mark::X,
            r.opponent == Opponent::Computer,
            r.difficulty == Difficulty::Easy,
            r.keymap == Keymap::Numpad,
            r.score_x == 0,
            r.score_o == 0,
    {
        Game {
            grid: [Cell::Empty; 9],
            state: State::Ongoing,
            player: Mark::X,
            turn: Mark::X,
            opponent: Opponent::Computer,
            difficulty: Difficulty::Easy,
            keymap: Keymap::Numpad,
            score_x: 0,
            score_o: 0,
        }
    }
}

impl Game {
    /// A session configured from the setup choices; board, turn, state and
    /// scores start as in `default`.
    pub fn new(player: Mark, opponent: Opponent, difficulty: Difficulty, keymap: Keymap) -> (r:
        Game)
        ensures
            all_empty(r.grid@),
            r.state == State::Ongoing,
            r.turn == Mark::X,
            r.player == player,
            r.opponent == opponent,
            r.difficulty == difficulty,
            r.keymap == keymap,
            r.score_x == 0,
            r.score_o == 0,
    {
        Game {
            grid: [Cell::Empty; 9],
            state: State::Ongoing,
            player,
            turn: Mark::X,
            opponent,
            difficulty,
            keymap,
            score_x: 0,
            score_o: 0,
        }
    }

    /// The winning mark on the current board, if any line is held. A pure
    /// function of the board alone, so repeated calls yield the same result.
    pub fn check_winner(&self) -> (r: Option<Mark>)
        ensures
            r == winner_spec(self.grid@),
    {
        winner_of(&self.grid)
    }

    /// Re-derive the round state from the board and record it: `Won` for a
    /// held line, else `Tie` on a full board, else `Ongoing`. Nothing but
    /// the recorded state changes, and the result is a function of the
    /// board alone, so evaluating again yields the same answer.
    pub fn check_state(&mut self) -> (r: State)
        ensures
            r == state_spec(old(self).grid@),
            final(self).state == r,
            final(self).grid == old(self).grid,
            final(self).player == old(self).player,
            final(self).turn == old(self).turn,
            final(self).opponent == old(self).opponent,
            final(self).difficulty == old(self).difficulty,
            final(self).keymap == old(self).keymap,
            final(self).score_x == old(self).score_x,
            final(self).score_o == old(self).score_o,
    {
        let s = state_of(&self.grid);
        self.state = s;
        s
    }

    /// Apply the mover's choice: when the target cell is empty, occupy it
    /// with `turn`'s mark and hand the turn to the other player; when it is
    /// already occupied, discard the move and change nothing, so the same
    /// player is polled again. Returns whether the move was placed.
    pub fn apply_move(&mut self, choice: usize) -> (placed: bool)
        requires
            choice < 9,
        ensures
            placed == (old(self).grid@[choice as int] == Cell::Empty),
            placed ==> final(self).grid@ == old(self).grid@.update(
                choice as int,
                Cell::Occupied(old(self).turn),
            ),
            placed ==> final(self).turn == other_mark(old(self).turn),
            !placed ==> *final(self) == *old(self),
            final(self).state == old(self).state,
            final(self).player == old(self).player,
            final(self).opponent == old(self).opponent,
            final(self).difficulty == old(self).difficulty,
            final(self).keymap == old(self).keymap,
            final(self).score_x == old(self).score_x,
            final(self).score_o == old(self).score_o,
    {
        if self.grid[choice] == Cell::Empty {
            self.grid[choice] = Cell::Occupied(self.turn);
            self.turn = self.turn.other();
            true
        } else {
            false
        }
    }

    /// Whether the computer supplies the next move: only against a computer
    /// opponent, and only when it is not the configured human's turn.
    pub fn computer_to_move(&self) -> (r: bool)
        ensures
            r == (self.opponent == Opponent::Computer && self.turn != self.player),
    {
        self.opponent == Opponent::Computer && self.turn != self.player
    }

    /// The computer's easy move: uniformly random among the empty cells,
    /// enumerated in row-major order. The chosen flat index always
    /// addresses an empty cell of the current board.
    pub fn play_turn_computer_random(&self) -> (r: usize)
        requires
            !board_full(self.grid@),
        ensures
            r < 9,
            self.grid@[r as int] == Cell::Empty,
    {
        random_move(&self.grid)
    }

    /// The computer's hard move: exhaustive minimax search to the end of
    /// the game. Returns the first flat index, in row-major order, whose
    /// move value for the acting mark is maximal among the empty cells; in
    /// particular it is never a forced loss while a non-losing move exists.
    pub fn play_turn_computer_minimax(&self) -> (r: usize)
        requires
            !board_full(self.grid@),
        ensures
            r < 9,
            self.grid@[r as int] == Cell::Empty,
            forall|j: int|
                0 <= j < 9 && self.grid@[j] == Cell::Empty ==> #[trigger] move_value(
                    self.grid@,
                    self.turn,
                    j,
                ) <= move_value(self.grid@, self.turn, r as int),
            forall|j: int|
                0 <= j < r as int && self.grid@[j] == Cell::Empty ==> #[trigger] move_value(
                    self.grid@,
                    self.turn,
                    j,
                ) < move_value(self.grid@, self.turn, r as int),
            (exists|j: int|
                0 <= j < 9 && self.grid@[j] == Cell::Empty && #[trigger] move_value(
                    self.grid@,
                    self.turn,
                    j,
                ) >= 0) ==> move_value(self.grid@, self.turn, r as int) >= 0,
    {
        best_move(&self.grid, self.turn)
    }

    /// The computer's move under the configured difficulty: random on easy,
    /// minimax on hard. Either way the result addresses an empty cell; on
    /// hard it is pinned to the minimax choice, the first flat index in
    /// row-major order whose move value is maximal among the empty cells.
    pub fn play_turn_computer(&self) -> (r: usize)
        requires
            !board_full(self.grid@),
        ensures
            r < 9,
            self.grid@[r as int] == Cell::Empty,
            self.difficulty == Difficulty::Hard ==> forall|j: int|
                0 <= j < 9 && self.grid@[j] == Cell::Empty ==> #[trigger] move_value(
                    self.grid@,
                    self.turn,
                    j,
                ) <= move_value(self.grid@, self.turn, r as int),
            self.difficulty == Difficulty::Hard ==> forall|j: int|
                0 <= j < r as int && self.grid@[j] == Cell::Empty ==> #[trigger] move_value(
                    self.grid@,
                    self.turn,
                    j,
                ) < move_value(self.grid@, self.turn, r as int),
            self.difficulty == Difficulty::Hard ==> ((exists|j: int|
                0 <= j < 9 && self.grid@[j] == Cell::Empty && #[trigger] move_value(
                    self.grid@,
                    self.turn,
                    j,
                ) >= 0) ==> move_value(self.grid@, self.turn, r as int) >= 0),
    {
        match self.difficulty {
            Difficulty::Easy => self.play_turn_computer_random(),
            Difficulty::Hard => self.play_turn_computer_minimax(),
        }
    }

    /// Credit a won round to `winner`'s score; nothing else changes.
    pub fn record_win(&mut self, winner: Mark)
        requires
            winner == Mark::X ==> old(self).score_x < u32::MAX,
            winner == Mark::O ==> old(self).score_o < u32::MAX,
        ensures
            winner == Mark::X ==> final(self).score_x == old(self).score_x + 1 && final(self).score_o
                == old(self).score_o,
            winner == Mark::O ==> final(self).score_o == old(self).score_o + 1 && final(self).score_x
                == old(self).score_x,
            final(self).grid == old(self).grid,
            final(self).state == old(self).state,
            final(self).player == old(self).player,
            final(self).turn == old(self).turn,
            final(self).opponent == old(self).opponent,
            final(self).difficulty == old(self).difficulty,
            final(self).keymap == old(self).keymap,
    {
        match winner {
            Mark::X => self.score_x = self.score_x + 1,
            Mark::O => self.score_o = self.score_o + 1,
        }
    }

    /// Start a new round: clear the board, set the state back to ongoing,
    /// and give the first move to X, the fixed first mover. Configuration
    /// and scores persist across rounds.
    pub fn reset_round(&mut self)
        ensures
            all_empty(final(self).grid@),
            final(self).state == State::Ongoing,
            final(self).turn == Mark::X,
            final(self).player == old(self).player,
            final(self).opponent == old(self).opponent,
            final(self).difficulty == old(self).difficulty,
            final(self).keymap == old(self).keymap,
            final(self).score_x == old(self).score_x,
            final(self).score_o == old(self).score_o,
    {
        self.grid = [Cell::Empty; 9];
        self.state = State::Ongoing;
        self.turn = Mark::X;
    }
}

} // verus!
