//! The 3x3 board: cells, marks, the round state, and win/tie detection.

use vstd::prelude::*;

verus! {

broadcast use vstd::array::group_array_axioms;

/// One of the two symbols a player's moves are recorded with.
#[derive(Copy, Clone, Debug, PartialEq, Eq, Structural)]
pub enum Mark {
    X,
    O,
}

/// One square of the board: empty, or occupied by a mark. The tagged
/// representation makes an "occupied but uninitialized" square unrepresentable.
#[derive(Copy, Clone, Debug, PartialEq, Eq, Structural)]
pub enum Cell {
    Empty,
    Occupied(Mark),
}

/// The outcome of evaluating a board: still playable, won by a mark, or tied.
#[derive(Copy, Clone, Debug, PartialEq, Eq, Structural)]
pub enum State {
    Ongoing,
    Won(Mark),
    Tie,
}

/// The fixed 3x3 grid, addressed flat in row-major order (`index = row*3 + col`).
pub type Grid = [Cell; 9];

impl Default for Cell {
    fn default() -> (r: Self)
        ensures
            r == Cell::Empty,
    {
        Cell::Empty
    }
}

/// The mark the other player uses.
pub open spec fn other_mark(m: Mark) -> Mark {
    match m {
        Mark::X => Mark::O,
        Mark::O => Mark::X,
    }
}

impl Mark {
    /// The mark the other player uses.
    pub fn other(self) -> (r: Mark)
        ensures
            r == other_mark(self),
    {
        match self {
            Mark::X => Mark::O,
            Mark::O => Mark::X,
        }
    }
}

/// The three cells at `a`, `b`, `c` are all occupied by `m`.
pub open spec fn wins_line(g: Seq<Cell>, m: Mark, a: int, b: int, c: int) -> bool {
    &&& g[a] == Cell::Occupied(m)
    &&& g[b] == Cell::Occupied(m)
    &&& g[c] == Cell::Occupied(m)
}

/// `m` holds one of the 8 winning lines: 3 rows, 3 columns, 2 diagonals.
pub open spec fn wins(g: Seq<Cell>, m: Mark) -> bool {
    ||| wins_line(g, m, 0, 1, 2)
    ||| wins_line(g, m, 3, 4, 5)
    ||| wins_line(g, m, 6, 7, 8)
    ||| wins_line(g, m, 0, 3, 6)
    ||| wins_line(g, m, 1, 4, 7)
    ||| wins_line(g, m, 2, 5, 8)
    ||| wins_line(g, m, 0, 4, 8)
    ||| wins_line(g, m, 2, 4, 6)
}

/// No empty cell remains.
pub open spec fn board_full(g: Seq<Cell>) -> bool {
    forall|i: int| 0 <= i < 9 ==> g[i] != Cell::Empty
}

/// Every cell is empty (a fresh board).
pub open spec fn all_empty(g: Seq<Cell>) -> bool {
    forall|i: int| 0 <= i < 9 ==> g[i] == Cell::Empty
}

/// The winning mark of a board, if any; on the (unreachable under legal play)
/// boards where both marks hold a line, `X` is reported.
pub open spec fn winner_spec(g: Seq<Cell>) -> Option<Mark> {
    if wins(g, Mark::X) {
        Some(Mark::X)
    } else if wins(g, Mark::O) {
        Some(Mark::O)
    } else {
        None
    }
}

/// The round state a board evaluates to: won if a line is held, else tied
/// when full, else ongoing.
pub open spec fn state_spec(g: Seq<Cell>) -> State {
    match winner_spec(g) {
        Some(m) => State::Won(m),
        None => if board_full(g) {
            State::Tie
        } else {
            State::Ongoing
        },
    }
}

/// The number of empty cells at flat positions `i` and beyond.
pub open spec fn empty_count_from(g: Seq<Cell>, i: int) -> nat
    decreases 9 - i,
{
    if i < 0 || i >= 9 {
        0
    } else if g[i] == Cell::Empty {
        empty_count_from(g, i + 1) + 1
    } else {
        empty_count_from(g, i + 1)
    }
}

/// The number of empty cells on the board.
pub open spec fn empty_count(g: Seq<Cell>) -> nat {
    empty_count_from(g, 0)
}

proof fn lemma_empty_count_update_from(g: Seq<Cell>, i: int, v: Cell, j: int)
    requires
        g.len() == 9,
        0 <= i < 9,
        g[i] == Cell::Empty,
        v != Cell::Empty,
        0 <= j <= 9,
    ensures
        empty_count_from(g, j) == empty_count_from(g.update(i, v), j) + if j <= i {
            1int
        } else {
            0int
        },
    decreases 9 - j,
{
    if j < 9 {
        lemma_empty_count_update_from(g, i, v, j + 1);
    }
}

/// Occupying an empty cell reduces the number of empty cells by one.
pub proof fn lemma_empty_count_update(g: Seq<Cell>, i: int, v: Cell)
    requires
        g.len() == 9,
        0 <= i < 9,
        g[i] == Cell::Empty,
        v != Cell::Empty,
    ensures
        empty_count(g.update(i, v)) == empty_count(g) - 1,
{
    lemma_empty_count_update_from(g, i, v, 0);
}

proof fn lemma_empty_count_pos_from(g: Seq<Cell>, i: int, j: int)
    requires
        0 <= j <= i < 9,
        g[i] == Cell::Empty,
    ensures
        empty_count_from(g, j) > 0,
    decreases i - j,
{
    if j < i {
        lemma_empty_count_pos_from(g, i, j + 1);
    }
}

/// A board that is not full has a positive empty-cell count.
pub proof fn lemma_not_full_count(g: Seq<Cell>)
    requires
        g.len() == 9,
        !board_full(g),
    ensures
        empty_count(g) > 0,
{
    let i = choose|i: int| 0 <= i < 9 && g[i] == Cell::Empty;
    lemma_empty_count_pos_from(g, i, 0);
}

/// No move creates a second winner: a legal move (into an empty cell of a
/// board nobody has won) can give a line only to the mark just placed, so
/// boards reached by alternating one-cell moves, applied only while the
/// round is ongoing, never satisfy the win condition for both marks at once.
pub proof fn lemma_no_double_win(g: Seq<Cell>, i: int, m: Mark)
    requires
        g.len() == 9,
        0 <= i < 9,
        g[i] == Cell::Empty,
        forall|w: Mark| !wins(g, w),
    ensures
        forall|w: Mark| #[trigger] wins(g.update(i, Cell::Occupied(m)), w) ==> w == m,
        !(wins(g.update(i, Cell::Occupied(m)), Mark::X) && wins(
            g.update(i, Cell::Occupied(m)),
            Mark::O,
        )),
{
    let g2 = g.update(i, Cell::Occupied(m));
    assert forall|w: Mark| #[trigger] wins(g2, w) implies w == m by {
        if w != m {
            assert(!wins(g, w));
            assert(g2[i] == Cell::Occupied(m));
            assert(forall|j: int| 0 <= j < 9 && j != i ==> g2[j] == g[j]);
            assert(false);
        }
    }
}

/// The board before any move: all nine cells empty.
pub open spec fn empty_board() -> Seq<Cell> {
    Seq::new(9, |i: int| Cell::Empty)
}

/// The mark that makes move number `k` (counting from zero) under strict
/// alternation with X moving first.
pub open spec fn mark_of_move(k: int) -> Mark {
    if k % 2 == 0 {
        Mark::X
    } else {
        Mark::O
    }
}

/// The board after the flat-index moves of `moves`, applied in order from
/// the empty board under strict alternation with X first; a move off the
/// board changes nothing.
pub open spec fn board_after(moves: Seq<int>) -> Seq<Cell>
    decreases moves.len(),
{
    if moves.len() == 0 {
        empty_board()
    } else {
        let b = board_after(moves.drop_last());
        let i = moves.last();
        if 0 <= i < 9 {
            b.update(i, Cell::Occupied(mark_of_move(moves.len() - 1)))
        } else {
            b
        }
    }
}

/// Move number `k` of `moves` is legal: it targets an empty cell of the
/// board of its time, and the round is still ongoing when it is made.
pub open spec fn legal_at(moves: Seq<int>, k: int) -> bool {
    &&& 0 <= moves[k] < 9
    &&& board_after(moves.take(k))[moves[k]] == Cell::Empty
    &&& state_spec(board_after(moves.take(k))) == State::Ongoing
}

/// Every move of `moves` is a legal one-cell move: none targets an occupied
/// cell, and none is played after the round has reached a terminal state.
pub open spec fn legal_play(moves: Seq<int>) -> bool {
    forall|k: int| 0 <= k < moves.len() ==> #[trigger] legal_at(moves, k)
}

proof fn lemma_board_after_len(moves: Seq<int>)
    ensures
        board_after(moves).len() == 9,
    decreases moves.len(),
{
    if moves.len() > 0 {
        lemma_board_after_len(moves.drop_last());
    }
}

/// No reachable board has two winners: a board produced from the empty
/// board by alternating, one-cell legal moves - moves applied only while
/// the round is ongoing - never satisfies the win condition for both marks
/// at once. Each move can complete a line only for the mark just placed
/// (`lemma_no_double_win`), and play stops as soon as someone has won.
pub proof fn lemma_reachable_single_winner(moves: Seq<int>)
    requires
        legal_play(moves),
    ensures
        !(wins(board_after(moves), Mark::X) && wins(board_after(moves), Mark::O)),
        forall|w: Mark|
            #[trigger] wins(board_after(moves), w) ==> moves.len() > 0 && w == mark_of_move(
                moves.len() - 1,
            ),
    decreases moves.len(),
{
    let b = board_after(moves);
    if moves.len() == 0 {
        assert(forall|i: int| 0 <= i < 9 ==> empty_board()[i] == Cell::Empty);
        assert(forall|w: Mark| !wins(b, w));
    } else {
        let n = moves.len() as int;
        let prev = moves.drop_last();
        assert(prev =~= moves.take(n - 1));
        assert forall|k: int| 0 <= k < prev.len() implies #[trigger] legal_at(prev, k) by {
            assert(legal_at(moves, k));
            assert(prev.take(k) =~= moves.take(k));
        }
        lemma_reachable_single_winner(prev);
        let b0 = board_after(prev);
        lemma_board_after_len(prev);
        assert(legal_at(moves, n - 1));
        assert(state_spec(b0) == State::Ongoing);
        assert forall|w: Mark| !wins(b0, w) by {
            if w == Mark::X {
                assert(winner_spec(b0) is None);
            } else {
                assert(w == Mark::O);
                assert(winner_spec(b0) is None);
            }
        }
        lemma_no_double_win(b0, moves.last(), mark_of_move(n - 1));
        assert(b == b0.update(moves.last(), Cell::Occupied(mark_of_move(n - 1))));
    }
}

/// Evaluation never counts one board as both won and tied: a board is won
/// exactly when some mark holds a line, and tied exactly when it is full
/// and no mark holds a line.
pub proof fn lemma_win_tie_exclusive(g: Seq<Cell>)
    ensures
        !(state_spec(g) is Won && state_spec(g) is Tie),
        state_spec(g) is Won <==> exists|m: Mark| wins(g, m),
        state_spec(g) is Tie <==> (board_full(g) && forall|m: Mark| !wins(g, m)),
{
    if exists|m: Mark| wins(g, m) {
        let m = choose|m: Mark| wins(g, m);
        match m {
            Mark::X => assert(wins(g, Mark::X)),
            Mark::O => assert(wins(g, Mark::O)),
        }
    }
}

fn line_held(g: &Grid, m: Mark, a: usize, b: usize, c: usize) -> (r: bool)
    requires
        a < 9,
        b < 9,
        c < 9,
    ensures
        r == wins_line(g@, m, a as int, b as int, c as int),
{
    g[a] == Cell::Occupied(m) && g[b] == Cell::Occupied(m) && g[c] == Cell::Occupied(m)
}

/// Whether `m` holds any of the 8 winning lines of `g`.
pub fn mark_wins(g: &Grid, m: Mark) -> (r: bool)
    ensures
        r == wins(g@, m),
{
    line_held(g, m, 0, 1, 2) || line_held(g, m, 3, 4, 5) || line_held(g, m, 6, 7, 8) || line_held(
        g,
        m,
        0,
        3,
        6,
    ) || line_held(g, m, 1, 4, 7) || line_held(g, m, 2, 5, 8) || line_held(g, m, 0, 4, 8)
        || line_held(g, m, 2, 4, 6)
}

/// The winning mark of `g`, if any line is held.
pub fn winner_of(g: &Grid) -> (r: Option<Mark>)
    ensures
        r == winner_spec(g@),
{
    if mark_wins(g, Mark::X) {
        Some(Mark::X)
    } else if mark_wins(g, Mark::O) {
        Some(Mark::O)
    } else {
        None
    }
}

/// Whether no empty cell remains on `g`.
pub fn grid_full(g: &Grid) -> (r: bool)
    ensures
        r == board_full(g@),
{
    let mut i: usize = 0;
    while i < 9
        invariant
            i <= 9,
            forall|j: int| 0 <= j < i ==> g@[j] != Cell::Empty,
        decreases 9 - i,
    {
        if g[i] == Cell::Empty {
            return false;
        }
        i = i + 1;
    }
    true
}

/// The round state of `g`: `Won` for a held line, else `Tie` when full,
/// else `Ongoing`. A pure function of the board, so repeated evaluation
/// always yields the same result.
pub fn state_of(g: &Grid) -> (r: State)
    ensures
        r == state_spec(g@),
{
    match winner_of(g) {
        Some(m) => State::Won(m),
        None => if grid_full(g) {
            State::Tie
        } else {
            State::Ongoing
        },
    }
}

} // verus!
