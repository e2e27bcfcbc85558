//! Facts about the minimax value of a position.

use crate::board::{
    empty_cells, empty_count, is_vacant, lemma_empty_cells, lemma_with_mark_count, with_mark, Board,
};
use crate::entity::Entity;
use crate::search::{better, is_over, value, value_among, worst};
use vstd::prelude::*;

verus! {

/// Each of the cells `cells[i..]` is an empty cell of the grid.
pub open spec fn all_vacant_from(b: Board, cells: Seq<(usize, usize)>, i: int) -> bool {
    forall|j: int| i <= j < cells.len() ==> is_vacant(b, (#[trigger] cells[j]).0 as int, cells[j].1 as int)
}

/// The value of the move to `(r, c)` for the player who makes it: the value of
/// the grid that it leads to, with the other player to move.
pub open spec fn reply_value(b: Board, p: Entity, r: int, c: int) -> int {
    value(with_mark(b, r, c, p), p.complement())
}

/// The minimax value of a position is -1, 0 or 1.
pub proof fn lemma_value_bounds(b: Board, p: Entity)
    requires
        p.is_player(),
    ensures
        -1 <= value(b, p) <= 1,
    decreases empty_count(b), empty_cells(b).len() + 1,
{
    if !is_over(b) {
        lemma_empty_cells(b);
        lemma_value_among_bounds(b, p, empty_cells(b), 0);
    }
}

/// The best value among some moves is -1, 0 or 1 where there is a move, and
/// the starting value where there is none.
pub proof fn lemma_value_among_bounds(b: Board, p: Entity, cells: Seq<(usize, usize)>, i: int)
    requires
        p.is_player(),
        0 <= i,
        all_vacant_from(b, cells, i),
    ensures
        i < cells.len() ==> -1 <= value_among(b, p, cells, i) <= 1,
        i >= cells.len() ==> value_among(b, p, cells, i) == worst(p),
    decreases empty_count(b), cells.len() - i,
{
    if i < cells.len() {
        let r = cells[i].0 as int;
        let c = cells[i].1 as int;
        lemma_with_mark_count(b, r, c, p);
        lemma_value_bounds(with_mark(b, r, c, p), p.complement());
        lemma_value_among_bounds(b, p, cells, i + 1);
    }
}

/// The best value among the moves `cells[i..]` is at least as good for the
/// mover as the value of each of them, and is the value of one of them.
pub proof fn lemma_value_among_is_best(b: Board, p: Entity, cells: Seq<(usize, usize)>, i: int)
    requires
        p.is_player(),
        0 <= i < cells.len(),
        all_vacant_from(b, cells, i),
    ensures
        forall|j: int|
            i <= j < cells.len() ==> better(
                p,
                value_among(b, p, cells, i),
                reply_value(b, p, (#[trigger] cells[j]).0 as int, cells[j].1 as int),
            ) == value_among(b, p, cells, i),
        exists|j: int|
            i <= j < cells.len() && reply_value(b, p, (#[trigger] cells[j]).0 as int, cells[j].1 as int)
                == value_among(b, p, cells, i),
    decreases cells.len() - i,
{
    let here = reply_value(b, p, cells[i].0 as int, cells[i].1 as int);
    lemma_with_mark_count(b, cells[i].0 as int, cells[i].1 as int, p);
    lemma_value_bounds(with_mark(b, cells[i].0 as int, cells[i].1 as int, p), p.complement());
    lemma_value_among_bounds(b, p, cells, i + 1);
    if i + 1 < cells.len() {
        lemma_value_among_is_best(b, p, cells, i + 1);
        let k = choose|j: int|
            i + 1 <= j < cells.len() && reply_value(b, p, (#[trigger] cells[j]).0 as int, cells[j].1 as int)
                == value_among(b, p, cells, i + 1);
        if value_among(b, p, cells, i) == here {
            assert(reply_value(b, p, cells[i].0 as int, cells[i].1 as int) == value_among(b, p, cells, i));
        } else {
            assert(reply_value(b, p, cells[k].0 as int, cells[k].1 as int) == value_among(b, p, cells, i));
        }
    } else {
        assert(reply_value(b, p, cells[i].0 as int, cells[i].1 as int) == value_among(b, p, cells, i));
    }
}

/// Where the game is not over, the value of a position is the best for the
/// mover of the values of its moves: no move is worth more to the mover, and
/// some move is worth exactly that.
pub proof fn lemma_value_is_best_reply(b: Board, p: Entity)
    requires
        p.is_player(),
        !is_over(b),
    ensures
        forall|r: int, c: int| #[trigger]
            is_vacant(b, r, c) ==> better(p, value(b, p), reply_value(b, p, r, c)) == value(b, p),
        exists|r: int, c: int| #[trigger] is_vacant(b, r, c) && reply_value(b, p, r, c) == value(b, p),
{
    let cells = empty_cells(b);
    lemma_empty_cells(b);
    lemma_value_among_is_best(b, p, cells, 0);
    assert forall|r: int, c: int| #[trigger] is_vacant(b, r, c) implies better(
        p,
        value(b, p),
        reply_value(b, p, r, c),
    ) == value(b, p) by {
        let j = choose|j: int| 0 <= j < cells.len() && #[trigger] cells[j] == (r as usize, c as usize);
        assert(cells[j].0 as int == r && cells[j].1 as int == c);
    }
    let k = choose|j: int|
        0 <= j < cells.len() && reply_value(b, p, (#[trigger] cells[j]).0 as int, cells[j].1 as int)
            == value(b, p);
    assert(is_vacant(b, cells[k].0 as int, cells[k].1 as int));
}

} // verus!
