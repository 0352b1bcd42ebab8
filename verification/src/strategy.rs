//! The two move-selection strategies: uniform-random choice among the empty
//! cells, and full-depth minimax search.

use rand::Rng;
use vstd::prelude::*;
use crate::board::{
    board_full, empty_count, lemma_empty_count_update, lemma_not_full_count, other_mark,
    winner_spec, winner_of, grid_full, Cell, Grid, Mark,
};

verus! {

broadcast use vstd::array::group_array_axioms;

/// The score of a finished round from `acting`'s perspective: +1 for a win,
/// -1 for a loss.
pub open spec fn score_of(w: Mark, acting: Mark) -> int {
    if w == acting {
        1
    } else {
        -1
    }
}

/// The value of position `g` for `acting` with `mover` to play, under
/// optimal play on both sides to the end of the game: +1 a forced win for
/// `acting`, -1 a forced win for the opponent, 0 a tie.
pub open spec fn game_value(g: Seq<Cell>, mover: Mark, acting: Mark) -> int
    decreases empty_count(g), 10int,
{
    match winner_spec(g) {
        Some(w) => score_of(w, acting),
        None => if board_full(g) {
            0
        } else {
            search_from(g, mover, acting, 0)
        },
    }
}

/// The best value `mover` can reach by playing into some empty cell at flat
/// position `i` or beyond: a maximum when `mover` is the acting player, a
/// minimum when it is the opponent. Past the last cell it is the identity
/// of that maximum or minimum (a sentinel outside the -1..=1 score range).
pub open spec fn search_from(g: Seq<Cell>, mover: Mark, acting: Mark, i: int) -> int
    decreases empty_count(g), 9 - i,
{
    if g.len() != 9 || i < 0 || i >= 9 {
        if mover == acting {
            -2
        } else {
            2
        }
    } else if g[i] == Cell::Empty {
        proof {
            lemma_empty_count_update(g, i, Cell::Occupied(mover));
        }
        let v = game_value(g.update(i, Cell::Occupied(mover)), other_mark(mover), acting);
        let rest = search_from(g, mover, acting, i + 1);
        if mover == acting {
            if v >= rest {
                v
            } else {
                rest
            }
        } else {
            if v <= rest {
                v
            } else {
                rest
            }
        }
    } else {
        search_from(g, mover, acting, i + 1)
    }
}

/// The value for `m` of playing into cell `i` of `g`: the game value of the
/// resulting position, with the opponent to move, from `m`'s perspective.
/// A negative value is a forced loss for `m` under optimal opponent replies.
pub open spec fn move_value(g: Seq<Cell>, m: Mark, i: int) -> int {
    game_value(g.update(i, Cell::Occupied(m)), other_mark(m), m)
}

/// `g` with cell `i` occupied by `m`.
pub fn place(g: &Grid, i: usize, m: Mark) -> (r: Grid)
    requires
        i < 9,
    ensures
        r@ == g@.update(i as int, Cell::Occupied(m)),
{
    let mut r = *g;
    r[i] = Cell::Occupied(m);
    r
}

/// The exhaustively searched value of position `g` for `acting` with
/// `mover` to play: computes `game_value` exactly.
pub fn minimax_value(g: &Grid, mover: Mark, acting: Mark) -> (v: i8)
    ensures
        v as int == game_value(g@, mover, acting),
    decreases empty_count(g@), 10int,
{
    match winner_of(g) {
        Some(w) => if w == acting {
            1
        } else {
            -1
        },
        None => if grid_full(g) {
            0
        } else {
            search_value(g, mover, acting, 0)
        },
    }
}

fn search_value(g: &Grid, mover: Mark, acting: Mark, i: usize) -> (v: i8)
    requires
        i <= 9,
    ensures
        v as int == search_from(g@, mover, acting, i as int),
    decreases empty_count(g@), 9 - i,
{
    if i >= 9 {
        if mover == acting {
            -2
        } else {
            2
        }
    } else if g[i] == Cell::Empty {
        let g2 = place(g, i, mover);
        proof {
            lemma_empty_count_update(g@, i as int, Cell::Occupied(mover));
        }
        let v = minimax_value(&g2, mover.other(), acting);
        let rest = search_value(g, mover, acting, i + 1);
        if mover == acting {
            if v >= rest {
                v
            } else {
                rest
            }
        } else {
            if v <= rest {
                v
            } else {
                rest
            }
        }
    } else {
        search_value(g, mover, acting, i + 1)
    }
}

/// The minimax choice for `m` on `g`: the first flat index, in row-major
/// order, whose move value is maximal among the empty cells. In particular
/// the choice is never a forced loss while some non-losing move exists.
pub fn best_move(g: &Grid, m: Mark) -> (r: usize)
    requires
        !board_full(g@),
    ensures
        r < 9,
        g@[r as int] == Cell::Empty,
        forall|j: int|
            0 <= j < 9 && g@[j] == Cell::Empty ==> #[trigger] move_value(g@, m, j) <= move_value(
                g@,
                m,
                r as int,
            ),
        forall|j: int|
            0 <= j < r as int && g@[j] == Cell::Empty ==> #[trigger] move_value(g@, m, j)
                < move_value(g@, m, r as int),
        (exists|j: int|
            0 <= j < 9 && g@[j] == Cell::Empty && #[trigger] move_value(g@, m, j) >= 0)
            ==> move_value(g@, m, r as int) >= 0,
{
    let mut best_idx: usize = 9;
    let mut best_val: i8 = -2;
    let mut i: usize = 0;
    while i < 9
        invariant
            i <= 9,
            best_idx == 9 || best_idx < i,
            best_idx == 9 ==> forall|j: int| 0 <= j < i ==> g@[j] != Cell::Empty,
            best_idx < 9 ==> g@[best_idx as int] == Cell::Empty,
            best_idx < 9 ==> best_val as int == move_value(g@, m, best_idx as int),
            best_idx < 9 ==> forall|j: int|
                0 <= j < i && g@[j] == Cell::Empty ==> #[trigger] move_value(g@, m, j)
                    <= best_val as int,
            best_idx < 9 ==> forall|j: int|
                0 <= j < best_idx as int && g@[j] == Cell::Empty ==> #[trigger] move_value(
                    g@,
                    m,
                    j,
                ) < best_val as int,
        decreases 9 - i,
    {
        if g[i] == Cell::Empty {
            let g2 = place(g, i, m);
            let v = minimax_value(&g2, m.other(), m);
            if best_idx == 9 || v > best_val {
                best_idx = i;
                best_val = v;
            }
        }
        i = i + 1;
    }
    assert(best_idx < 9);
    proof {
        if exists|j: int| 0 <= j < 9 && g@[j] == Cell::Empty && #[trigger] move_value(g@, m, j)
            >= 0 {
            let j = choose|j: int|
                0 <= j < 9 && g@[j] == Cell::Empty && #[trigger] move_value(g@, m, j) >= 0;
            assert(move_value(g@, m, j) <= best_val as int);
        }
    }
    best_idx
}

/// Relies on rand's `thread_rng` and `Rng::gen_range`: a value sampled from
/// the range `0..n` is strictly below `n`. `gen_range` panics on an empty
/// range, which `n > 0` rules out.
#[verifier::external_body]
fn random_below(n: usize) -> (r: usize)
    requires
        n > 0,
    ensures
        r < n,
{
    rand::thread_rng().gen_range(0..n)
}

/// The easy strategy: enumerate the empty cells in row-major order and pick
/// one uniformly at random. The result always addresses an empty cell of
/// the input board.
pub fn random_move(g: &Grid) -> (r: usize)
    requires
        !board_full(g@),
    ensures
        r < 9,
        g@[r as int] == Cell::Empty,
{
    let mut ids: Vec<usize> = Vec::new();
    let mut i: usize = 0;
    while i < 9
        invariant
            i <= 9,
            forall|k: int|
                0 <= k < ids@.len() ==> ids@[k] < 9 && g@[#[trigger] ids@[k] as int]
                    == Cell::Empty,
            forall|j: int| 0 <= j < i && g@[j] == Cell::Empty ==> ids@.contains(j as usize),
        decreases 9 - i,
    {
        if g[i] == Cell::Empty {
            let ghost prev = ids@;
            ids.push(i);
            proof {
                assert forall|j: int| 0 <= j < i + 1 && g@[j] == Cell::Empty implies ids@.contains(
                    j as usize,
                ) by {
                    if j < i {
                        assert(prev.contains(j as usize));
                        let k = choose|k: int| 0 <= k < prev.len() && prev[k] == j as usize;
                        assert(ids@[k] == j as usize);
                    } else {
                        assert(ids@[ids@.len() - 1] == i);
                    }
                }
            }
        }
        i = i + 1;
    }
    proof {
        lemma_not_full_count(g@);
        let j = choose|j: int| 0 <= j < 9 && g@[j] == Cell::Empty;
        assert(ids@.contains(j as usize));
        assert(ids@.len() > 0);
    }
    let id = random_below(ids.len());
    ids[id]
}

} // verus!
