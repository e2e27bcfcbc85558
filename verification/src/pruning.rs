//! Why pruning is safe: what the score of an alpha-beta search says of the
//! minimax value.

use crate::board::{empty_cells, empty_count, lemma_empty_cells, lemma_with_mark_count, with_mark, Board};
use crate::entity::Entity;
use crate::search::{alpha_beta, alpha_beta_among, better, is_over, value, value_among, worst};
use crate::values::{all_vacant_from, lemma_value_among_bounds, lemma_value_bounds};
use vstd::prelude::*;

verus! {

/// What a score `found` by a search in the window from `alpha` to `beta` says
/// of the true value: inside the window it is the value; at or below `alpha`
/// the value is no larger; at or above `beta` the value is no smaller.
pub open spec fn bounds_value(found: int, true_value: int, alpha: int, beta: int) -> bool {
    &&& found <= alpha ==> true_value <= found
    &&& found >= beta ==> true_value >= found
    &&& alpha < found < beta ==> true_value == found
}

/// The score of an alpha-beta search bounds the minimax value as its window
/// says.
pub proof fn lemma_alpha_beta_sound(b: Board, p: Entity, alpha: int, beta: int, depth: int)
    requires
        p.is_player(),
        i32::MIN <= alpha < beta <= i32::MAX,
    ensures
        bounds_value(alpha_beta(b, p, alpha, beta, depth).0, value(b, p), alpha, beta),
    decreases empty_count(b), empty_cells(b).len() + 1,
{
    if !is_over(b) {
        let cells = empty_cells(b);
        lemma_empty_cells(b);
        lemma_value_among_bounds(b, p, cells, 0);
        if p == Entity::Computer {
            lemma_scan_sound_max(b, alpha, alpha, beta, depth, worst(p), cells, 0, worst(p));
        } else {
            lemma_scan_sound_min(b, beta, alpha, beta, depth, worst(p), cells, 0, worst(p));
        }
    }
}

/// The scan of the maximising player. The moves before `cells[i]` are truly
/// worth `seen` at best; the search found `m` among them under a window that
/// started at `alpha0`. The score of the whole scan then bounds the best of
/// `seen` and the values of the moves left.
proof fn lemma_scan_sound_max(
    b: Board,
    alpha0: int,
    alpha: int,
    beta: int,
    depth: int,
    m: int,
    cells: Seq<(usize, usize)>,
    i: int,
    seen: int,
)
    requires
        0 <= i,
        all_vacant_from(b, cells, i),
        i32::MIN <= alpha0,
        beta <= i32::MAX,
        alpha == better(Entity::Computer, alpha0, m),
        alpha < beta,
        i32::MIN <= seen,
        m <= alpha0 ==> seen <= m,
        alpha0 < m ==> seen == m,
    ensures
        bounds_value(
            alpha_beta_among(b, Entity::Computer, alpha, beta, depth, m, cells, i).0,
            better(Entity::Computer, seen, value_among(b, Entity::Computer, cells, i)),
            alpha0,
            beta,
        ),
    decreases empty_count(b), cells.len() - i,
{
    let p = Entity::Computer;
    lemma_value_among_bounds(b, p, cells, i);
    if i < cells.len() {
        let r = cells[i].0 as int;
        let c = cells[i].1 as int;
        let child = with_mark(b, r, c, p);
        lemma_with_mark_count(b, r, c, p);
        lemma_alpha_beta_sound(child, Entity::Human, alpha, beta, depth + 1);
        lemma_value_bounds(child, Entity::Human);
        lemma_value_among_bounds(b, p, cells, i + 1);
        let probe = alpha_beta(child, Entity::Human, alpha, beta, depth + 1);
        let m2 = better(p, m, probe.0);
        let alpha2 = better(p, alpha, m2);
        if beta > alpha2 {
            lemma_scan_sound_max(
                b,
                alpha0,
                alpha2,
                beta,
                probe.1,
                m2,
                cells,
                i + 1,
                better(p, seen, value(child, Entity::Human)),
            );
        }
    }
}

/// The scan of the minimising player: the mirror image of the scan of the
/// maximising player.
proof fn lemma_scan_sound_min(
    b: Board,
    beta0: int,
    alpha: int,
    beta: int,
    depth: int,
    m: int,
    cells: Seq<(usize, usize)>,
    i: int,
    seen: int,
)
    requires
        0 <= i,
        all_vacant_from(b, cells, i),
        i32::MIN <= alpha,
        beta0 <= i32::MAX,
        beta == better(Entity::Human, beta0, m),
        alpha < beta,
        seen <= i32::MAX,
        m >= beta0 ==> seen >= m,
        beta0 > m ==> seen == m,
    ensures
        bounds_value(
            alpha_beta_among(b, Entity::Human, alpha, beta, depth, m, cells, i).0,
            better(Entity::Human, seen, value_among(b, Entity::Human, cells, i)),
            alpha,
            beta0,
        ),
    decreases empty_count(b), cells.len() - i,
{
    let p = Entity::Human;
    lemma_value_among_bounds(b, p, cells, i);
    if i < cells.len() {
        let r = cells[i].0 as int;
        let c = cells[i].1 as int;
        let child = with_mark(b, r, c, p);
        lemma_with_mark_count(b, r, c, p);
        lemma_alpha_beta_sound(child, Entity::Computer, alpha, beta, depth + 1);
        lemma_value_bounds(child, Entity::Computer);
        lemma_value_among_bounds(b, p, cells, i + 1);
        let probe = alpha_beta(child, Entity::Computer, alpha, beta, depth + 1);
        let m2 = better(p, m, probe.0);
        let beta2 = better(p, beta, m2);
        if beta2 > alpha {
            lemma_scan_sound_min(
                b,
                beta0,
                alpha,
                beta2,
                probe.1,
                m2,
                cells,
                i + 1,
                better(p, seen, value(child, Entity::Computer)),
            );
        }
    }
}

/// With the whole range of `i32` as its window, the search finds the minimax
/// value itself.
pub proof fn lemma_full_window_exact(b: Board, p: Entity, depth: int)
    requires
        p.is_player(),
    ensures
        alpha_beta(b, p, i32::MIN as int, i32::MAX as int, depth).0 == value(b, p),
{
    lemma_alpha_beta_sound(b, p, i32::MIN as int, i32::MAX as int, depth);
    lemma_value_bounds(b, p);
}

} // verus!
