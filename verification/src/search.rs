//! What the search engine computes, as mathematics: the minimax value of a
//! position, the alpha-beta search of it, and the choice among the moves.

use crate::board::{empty_cells, empty_count, has_line, is_full, is_vacant, with_mark, Board};
use crate::entity::Entity;
use vstd::prelude::*;

verus! {

/// The search goes no further from this grid: a player has completed a line,
/// or no cell is empty.
pub open spec fn is_over(b: Board) -> bool {
    has_line(b, Entity::Computer) || has_line(b, Entity::Human) || is_full(b)
}

/// What a grid is worth to the automated player where the search ends: 1 with
/// a line of its own, -1 with a line of its opponent, 0 with neither.
pub open spec fn utility(b: Board) -> int {
    if has_line(b, Entity::Computer) {
        1
    } else if has_line(b, Entity::Human) {
        -1
    } else {
        0
    }
}

/// The value from which a player starts before any move was tried: below every
/// score for the automated player, who maximises, and above every score for
/// its opponent, who minimises.
pub open spec fn worst(p: Entity) -> int {
    if p == Entity::Computer {
        i32::MIN as int
    } else {
        i32::MAX as int
    }
}

/// The one of two scores that the player prefers.
pub open spec fn better(p: Entity, x: int, y: int) -> int {
    if p == Entity::Computer {
        if x >= y { x } else { y }
    } else {
        if x <= y { x } else { y }
    }
}

/// The minimax value of the grid with `p` to move: the utility where the game
/// is over, else the best for `p` of the values of the grids that one move of
/// `p` leads to, with the other player to move there.
pub open spec fn value(b: Board, p: Entity) -> int
    decreases empty_count(b), empty_cells(b).len() + 1,
{
    if is_over(b) || !p.is_player() {
        utility(b)
    } else {
        value_among(b, p, empty_cells(b), 0)
    }
}

/// The best for `p` of the values of the moves `cells[i..]`.
pub open spec fn value_among(b: Board, p: Entity, cells: Seq<(usize, usize)>, i: int) -> int
    decreases empty_count(b), cells.len() - i,
{
    if i < 0 || i >= cells.len() || !p.is_player() || !is_vacant(
        b,
        cells[i].0 as int,
        cells[i].1 as int,
    ) {
        worst(p)
    } else {
        better(
            p,
            value(with_mark(b, cells[i].0 as int, cells[i].1 as int, p), p.complement()),
            value_among(b, p, cells, i + 1),
        )
    }
}

/// The alpha-beta search of the grid with `p` to move, as a pair: the score,
/// and the ply counter after the search. The counter enters as `depth`; a grid
/// at which the game is over hands it back unchanged; each move that is tried
/// is searched with the counter one past the value that the move before it
/// handed back.
pub open spec fn alpha_beta(b: Board, p: Entity, alpha: int, beta: int, depth: int) -> (int, int)
    decreases empty_count(b), empty_cells(b).len() + 1,
{
    if is_over(b) || !p.is_player() {
        (utility(b), depth)
    } else {
        alpha_beta_among(b, p, alpha, beta, depth, worst(p), empty_cells(b), 0)
    }
}

/// The search of the moves `cells[i..]`, where the moves before them have left
/// the best score `m`, the window from `alpha` to `beta` and the counter
/// `depth`. After each move the score so far tightens the mover's end of the
/// window, and the search stops as soon as `beta <= alpha`.
pub open spec fn alpha_beta_among(
    b: Board,
    p: Entity,
    alpha: int,
    beta: int,
    depth: int,
    m: int,
    cells: Seq<(usize, usize)>,
    i: int,
) -> (int, int)
    decreases empty_count(b), cells.len() - i,
{
    if i < 0 || i >= cells.len() || !p.is_player() || !is_vacant(
        b,
        cells[i].0 as int,
        cells[i].1 as int,
    ) {
        (m, depth)
    } else {
        let probe = alpha_beta(
            with_mark(b, cells[i].0 as int, cells[i].1 as int, p),
            p.complement(),
            alpha,
            beta,
            depth + 1,
        );
        let m2 = better(p, m, probe.0);
        let alpha2 = if p == Entity::Computer { better(p, alpha, m2) } else { alpha };
        let beta2 = if p == Entity::Computer { beta } else { better(p, beta, m2) };
        if beta2 <= alpha2 {
            (m2, probe.1)
        } else {
            alpha_beta_among(b, p, alpha2, beta2, probe.1, m2, cells, i + 1)
        }
    }
}

/// The score of the automated player's move to `(r, c)`: the minimax value of
/// the grid that the move leads to, with the opponent to move.
pub open spec fn move_score(b: Board, r: int, c: int) -> int {
    value(with_mark(b, r, c, Entity::Computer), Entity::Human)
}

/// The depth of the automated player's move to `(r, c)`: the ply counter after
/// a search, started at 0 with the widest window, of the grid that the move
/// leads to.
pub open spec fn move_depth(b: Board, r: int, c: int) -> int {
    alpha_beta(
        with_mark(b, r, c, Entity::Computer),
        Entity::Human,
        i32::MIN as int,
        i32::MAX as int,
        0,
    ).1
}

/// The move to `(r1, c1)` is preferred to the move to `(r2, c2)`: its score is
/// higher, or the scores are equal and its depth is smaller.
pub open spec fn outranks(b: Board, r1: int, c1: int, r2: int, c2: int) -> bool {
    move_score(b, r1, c1) > move_score(b, r2, c2) || (move_score(b, r1, c1) == move_score(b, r2, c2)
        && move_depth(b, r1, c1) < move_depth(b, r2, c2))
}

/// `(r, c)` is the move that the engine makes on the grid: an empty cell that
/// no other empty cell outranks, and the first such cell in row-major order.
pub open spec fn is_best_move(b: Board, r: int, c: int) -> bool {
    &&& is_vacant(b, r, c)
    &&& forall|i: int, j: int| #[trigger] is_vacant(b, i, j) ==> !outranks(b, i, j, r, c)
    &&& forall|i: int, j: int| #[trigger]
        is_vacant(b, i, j) && 3 * i + j < 3 * r + c ==> outranks(b, r, c, i, j)
}

/// The move that the engine makes on the grid. A grid with an empty cell has
/// exactly one best move.
pub open spec fn best_move(b: Board) -> (int, int) {
    choose|r: int, c: int| is_best_move(b, r, c)
}

/// A bound on how far one search of a grid with `n` empty cells moves the ply
/// counter.
pub open spec fn probe_budget(n: nat) -> nat
    decreases n,
{
    if n == 0 {
        0
    } else {
        n * (1 + probe_budget((n - 1) as nat))
    }
}

/// The budget of a grid, which has at most 9 empty cells, is far below the
/// largest `i32`.
pub proof fn lemma_probe_budget_fits(n: nat)
    requires
        n <= 9,
    ensures
        probe_budget(n) <= 986409,
{
    assert(probe_budget(0) == 0);
    assert(probe_budget(1) == 1);
    assert(probe_budget(2) == 4);
    assert(probe_budget(3) == 15);
    assert(probe_budget(4) == 64);
    assert(probe_budget(5) == 325);
    assert(probe_budget(6) == 1956);
    assert(probe_budget(7) == 13699);
    assert(probe_budget(8) == 109600);
    assert(probe_budget(9) == 986409);
}

/// After `i` of at most `n` moves, each within its budget, there is room for
/// the next one, and the whole stays within the budget of the grid.
pub proof fn lemma_probe_budget_step(n: nat, i: nat, start: int, depth: int)
    requires
        0 < n,
        i < n,
        depth <= start + i * (1 + probe_budget((n - 1) as nat)),
    ensures
        depth + 1 + probe_budget((n - 1) as nat) <= start + (i + 1) * (1 + probe_budget(
            (n - 1) as nat,
        )),
        start + (i + 1) * (1 + probe_budget((n - 1) as nat)) <= start + probe_budget(n),
{
    let k = 1 + probe_budget((n - 1) as nat);
    assert((i + 1) * k == i * k + k) by (nonlinear_arith);
    assert((i + 1) * k <= n * k) by (nonlinear_arith)
        requires
            i + 1 <= n,
            0 <= k,
    ;
}

} // verus!
