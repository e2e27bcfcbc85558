//! Facts about the move that the engine picks.

use crate::board::{cell_number, empty_cells, is_full, is_vacant, lemma_empty_cells, Board};
use crate::entity::Entity;
use crate::search::{best_move, is_best_move, is_over, move_score, outranks, value};
use crate::values::{lemma_value_is_best_reply, reply_value};
use vstd::prelude::*;

verus! {

/// The engine's move goes to an empty cell of the grid.
pub proof fn lemma_best_move_is_vacant(b: Board, r: int, c: int)
    requires
        is_best_move(b, r, c),
    ensures
        0 <= r < 3,
        0 <= c < 3,
        b[r][c] == Entity::Empty,
{
}

/// A grid has at most one best move: the engine's choice is determined by the
/// grid alone.
pub proof fn lemma_best_move_unique(b: Board, r1: int, c1: int, r2: int, c2: int)
    requires
        is_best_move(b, r1, c1),
        is_best_move(b, r2, c2),
    ensures
        r1 == r2,
        c1 == c2,
{
    assert(is_vacant(b, r1, c1) && is_vacant(b, r2, c2));
    if 3 * r1 + c1 < 3 * r2 + c2 {
        assert(outranks(b, r2, c2, r1, c1));
        assert(!outranks(b, r2, c2, r1, c1));
    } else if 3 * r2 + c2 < 3 * r1 + c1 {
        assert(outranks(b, r1, c1, r2, c2));
        assert(!outranks(b, r1, c1, r2, c2));
    }
}

/// A best move of the grid is the move that the engine makes on it.
pub proof fn lemma_best_move_is_the_choice(b: Board, r: int, c: int)
    requires
        is_best_move(b, r, c),
    ensures
        best_move(b) == (r, c),
        is_best_move(b, best_move(b).0, best_move(b).1),
{
    lemma_best_move_unique(b, r, c, best_move(b).0, best_move(b).1);
}

/// The engine's move is optimal: no move has a higher minimax score, and
/// where the game is not over the score of the move is the minimax value of
/// the grid with the automated player to move.
pub proof fn lemma_best_move_is_optimal(b: Board, r: int, c: int)
    requires
        is_best_move(b, r, c),
    ensures
        forall|i: int, j: int| #[trigger] is_vacant(b, i, j) ==> move_score(b, i, j) <= move_score(b, r, c),
        !is_over(b) ==> move_score(b, r, c) == value(b, Entity::Computer),
{
    if !is_over(b) {
        lemma_value_is_best_reply(b, Entity::Computer);
        let (i, j) = choose|i: int, j: int| #[trigger]
            is_vacant(b, i, j) && reply_value(b, Entity::Computer, i, j) == value(b, Entity::Computer);
        assert(!outranks(b, i, j, r, c));
        assert(is_vacant(b, r, c));
        assert(reply_value(b, Entity::Computer, r, c) == move_score(b, r, c));
    }
}

/// The cell `cells[k]` is the best of `cells[..i]`: none of them outranks it,
/// and it outranks each of those before it.
spec fn leads(b: Board, cells: Seq<(usize, usize)>, k: int, i: int) -> bool {
    &&& 0 <= k < i <= cells.len()
    &&& forall|j: int|
        0 <= j < i ==> !outranks(
            b,
            (#[trigger] cells[j]).0 as int,
            cells[j].1 as int,
            cells[k].0 as int,
            cells[k].1 as int,
        )
    &&& forall|j: int|
        0 <= j < k ==> outranks(
            b,
            cells[k].0 as int,
            cells[k].1 as int,
            (#[trigger] cells[j]).0 as int,
            cells[j].1 as int,
        )
}

/// From the best of the first `i` cells to the best of them all.
proof fn lemma_leader(b: Board, cells: Seq<(usize, usize)>, k: int, i: int) -> (best: int)
    requires
        leads(b, cells, k, i),
    ensures
        leads(b, cells, best, cells.len() as int),
    decreases cells.len() - i,
{
    if i == cells.len() {
        k
    } else if outranks(b, cells[i].0 as int, cells[i].1 as int, cells[k].0 as int, cells[k].1 as int) {
        lemma_leader(b, cells, i, i + 1)
    } else {
        lemma_leader(b, cells, k, i + 1)
    }
}

/// Every grid with an empty cell has a best move.
pub proof fn lemma_best_move_exists(b: Board)
    requires
        !is_full(b),
    ensures
        exists|r: int, c: int| is_best_move(b, r, c),
        is_best_move(b, best_move(b).0, best_move(b).1),
{
    let cells = empty_cells(b);
    lemma_empty_cells(b);
    let k = lemma_leader(b, cells, 0, 1);
    let r = cells[k].0 as int;
    let c = cells[k].1 as int;
    assert forall|i: int, j: int| #[trigger] is_vacant(b, i, j) implies !outranks(b, i, j, r, c) && (3 * i
        + j < 3 * r + c ==> outranks(b, r, c, i, j)) by {
        let n = choose|n: int| 0 <= n < cells.len() && #[trigger] cells[n] == (i as usize, j as usize);
        assert(cells[n].0 as int == i && cells[n].1 as int == j);
        if 3 * i + j < 3 * r + c {
            assert(cell_number(cells[n]) < cell_number(cells[k]));
            assert(n < k);
        }
    }
    assert(is_best_move(b, r, c));
}

} // verus!
