//! The search engine: exhaustive minimax with alpha-beta pruning over the
//! grid, one call per move.

use crate::board::{
    board_is_full, cell_number, empty_cells, empty_cells_before, empty_count, has_line, is_full,
    is_vacant, lemma_empty_cells, lemma_with_mark_count, lemma_with_mark_undo, owns_column,
    owns_row, with_mark, Board,
};
use crate::choice::lemma_best_move_is_the_choice;
use crate::entity::Entity;
use crate::pruning::lemma_full_window_exact;
use crate::search::{
    alpha_beta, alpha_beta_among, best_move, better, is_best_move, lemma_probe_budget_fits,
    lemma_probe_budget_step, move_depth, move_score, outranks, probe_budget, utility, worst,
};
use std::ops::Not;
use vstd::prelude::*;

verus! {

/// The search engine. It keeps nothing between two calls.
#[derive(Default)]
pub struct Computer;

/// The one of two scores that the player prefers: the larger for the
/// automated player, the smaller for its opponent.
fn prefer(player: Entity, x: i32, y: i32) -> (z: i32)
    ensures
        z == better(player, x as int, y as int),
{
    if player == Entity::Computer {
        if x >= y { x } else { y }
    } else {
        if x <= y { x } else { y }
    }
}

impl Computer {
    /// Writes `entity` into the cell `(x, y)`.
    fn set_move(&self, board: &mut Board, entity: Entity, x: usize, y: usize)
        requires
            x < 3,
            y < 3,
        ensures
            *final(board) == with_mark(*old(board), x as int, y as int, entity),
    {
        board[x][y] = entity;
        proof {
            let target = with_mark(*old(board), x as int, y as int, entity);
            assert(board[0] =~= target[0]);
            assert(board[1] =~= target[1]);
            assert(board[2] =~= target[2]);
            assert(*board =~= target);
        }
    }

    /// Clears the cell `(x, y)`.
    fn undo_move(&self, board: &mut Board, x: usize, y: usize)
        requires
            x < 3,
            y < 3,
        ensures
            *final(board) == with_mark(*old(board), x as int, y as int, Entity::Empty),
    {
        self.set_move(board, Entity::Empty, x, y);
    }

    /// Whether `entity` holds a whole row, column or diagonal.
    fn is_winner(&self, entity: Entity, board: &Board) -> (won: bool)
        ensures
            won == has_line(*board, entity),
    {
        let mut i: usize = 0;
        while i < 3
            invariant
                i <= 3,
                forall|k: int| 0 <= k < i ==> !owns_row(*board, entity, k) && !owns_column(*board, entity, k),
            decreases 3 - i,
        {
            if (board[i][0] == entity && board[i][1] == entity && board[i][2] == entity) || (board[0][i]
                == entity && board[1][i] == entity && board[2][i] == entity) {
                return true;
            }
            i += 1;
        }
        (board[0][0] == entity && board[1][1] == entity && board[2][2] == entity) || (board[0][2]
            == entity && board[1][1] == entity && board[2][0] == entity)
    }

    /// The empty cells, in row-major order.
    fn actions(&self, board: &Board) -> (positions: Vec<(usize, usize)>)
        ensures
            positions@ == empty_cells(*board),
    {
        let mut positions: Vec<(usize, usize)> = Vec::new();
        let mut row: usize = 0;
        while row < 3
            invariant
                row <= 3,
                positions@ == empty_cells_before(*board, 3 * row),
            decreases 3 - row,
        {
            let mut col: usize = 0;
            while col < 3
                invariant
                    row < 3,
                    col <= 3,
                    positions@ == empty_cells_before(*board, 3 * row + col),
                decreases 3 - col,
            {
                if board[row][col] == Entity::Empty {
                    positions.push((row, col));
                }
                col += 1;
            }
            row += 1;
        }
        positions
    }

    /// What a grid is worth to the automated player where the search ends.
    fn evaluate(&self, board: &Board) -> (score: i32)
        ensures
            score == utility(*board),
    {
        if self.is_winner(Entity::Computer, board) {
            return 1;
        } else if self.is_winner(Entity::Human, board) {
            return -1;
        }
        0
    }

    /// The automated player's move on a grid with an empty cell: the empty
    /// cell with the highest minimax score; among those of equal score the
    /// one whose search ended at the smallest depth; among those the first in
    /// row-major order.
    pub fn best_play(&mut self, board: Board) -> (best: (usize, usize))
        requires
            !is_full(board),
        ensures
            best.0 < 3,
            best.1 < 3,
            board[best.0 as int][best.1 as int] == Entity::Empty,
            is_best_move(board, best.0 as int, best.1 as int),
            best_move(board) == (best.0 as int, best.1 as int),
    {
        let mut scratch: Board = board;
        let mut score: i32 = i32::MIN;
        let mut depth: i32 = i32::MAX;
        let mut result: (usize, usize) = (0, 0);
        let ghost mut chosen: int = -1;
        let actions = self.actions(&scratch);
        proof {
            lemma_empty_cells(board);
        }
        let n: usize = actions.len();
        let mut i: usize = 0;
        while i < n
            invariant
                scratch == board,
                actions@ == empty_cells(board),
                n == actions.len(),
                n == empty_count(board),
                i <= n,
                forall|j: int|
                    0 <= j < n ==> is_vacant(board, (#[trigger] actions@[j]).0 as int, actions@[j].1 as int),
                i == 0 ==> score == i32::MIN,
                i > 0 ==> 0 <= chosen < i && result == actions@[chosen],
                i > 0 ==> score == move_score(board, result.0 as int, result.1 as int),
                i > 0 ==> depth == move_depth(board, result.0 as int, result.1 as int),
                forall|j: int|
                    0 <= j < i ==> !outranks(
                        board,
                        (#[trigger] actions@[j]).0 as int,
                        actions@[j].1 as int,
                        result.0 as int,
                        result.1 as int,
                    ),
                forall|j: int|
                    0 <= j < chosen ==> outranks(
                        board,
                        result.0 as int,
                        result.1 as int,
                        (#[trigger] actions@[j]).0 as int,
                        actions@[j].1 as int,
                    ),
            decreases n - i,
        {
            let (row, col) = actions[i];
            proof {
                let child = with_mark(board, row as int, col as int, Entity::Computer);
                lemma_with_mark_count(board, row as int, col as int, Entity::Computer);
                lemma_with_mark_undo(board, row as int, col as int, Entity::Computer);
                lemma_probe_budget_fits(empty_count(child));
                lemma_full_window_exact(child, Entity::Human, 0);
            }
            self.set_move(&mut scratch, Entity::Computer, row, col);
            let (v, d) = self.minimax(&mut scratch, Entity::Human, i32::MIN, i32::MAX, 0);
            if v > score || (v == score && d < depth) {
                result = (row, col);
                score = v;
                depth = d;
                proof {
                    chosen = i as int;
                }
            }
            self.undo_move(&mut scratch, row, col);
            i += 1;
        }
        proof {
            assert forall|r: int, c: int| #[trigger] is_vacant(board, r, c) implies !outranks(
                board,
                r,
                c,
                result.0 as int,
                result.1 as int,
            ) && (3 * r + c < 3 * result.0 + result.1 ==> outranks(
                board,
                result.0 as int,
                result.1 as int,
                r,
                c,
            )) by {
                let j = choose|j: int| 0 <= j < n && #[trigger] actions@[j] == (r as usize, c as usize);
                assert(actions@[j].0 as int == r && actions@[j].1 as int == c);
                if 3 * r + c < 3 * result.0 + result.1 {
                    assert(cell_number(actions@[j]) < cell_number(actions@[chosen]));
                    assert(j < chosen);
                }
            }
            lemma_best_move_is_the_choice(board, result.0 as int, result.1 as int);
        }
        result
    }

    /// Searches the grid with `player` to move and the window from `alpha`
    /// to `beta`. Hands back the score and the ply counter, and leaves the
    /// grid as it found it.
    fn minimax(&mut self, board: &mut Board, player: Entity, alpha: i32, beta: i32, depth: i32) -> (result: (
        i32,
        i32,
    ))
        requires
            player.is_player(),
            0 <= depth,
            depth + probe_budget(empty_count(*old(board))) <= i32::MAX,
        ensures
            *final(board) == *old(board),
            (result.0 as int, result.1 as int) == alpha_beta(
                *old(board),
                player,
                alpha as int,
                beta as int,
                depth as int,
            ),
            -1 <= result.0 <= 1,
            depth <= result.1 <= depth + probe_budget(empty_count(*old(board))),
        decreases empty_count(*old(board)),
    {
        if self.is_winner(player, board) || self.is_winner(player.not(), board) || board_is_full(board) {
            return (self.evaluate(board), depth);
        }
        let ghost start = *board;
        let ghost total = alpha_beta(start, player, alpha as int, beta as int, depth as int);
        let ghost first_depth = depth;
        let ghost room = 1 + probe_budget((empty_count(start) - 1) as nat);
        let actions = self.actions(board);
        proof {
            lemma_empty_cells(start);
        }
        let n: usize = actions.len();
        let mut m: i32 = if player == Entity::Computer { i32::MIN } else { i32::MAX };
        let mut alpha: i32 = alpha;
        let mut beta: i32 = beta;
        let mut depth: i32 = depth;
        let mut i: usize = 0;
        while i < n
            invariant_except_break
                alpha_beta_among(start, player, alpha as int, beta as int, depth as int, m as int, actions@, i as int)
                    == total,
            invariant
                *board == start,
                start == *old(board),
                player.is_player(),
                actions@ == empty_cells(start),
                n == actions.len(),
                n == empty_count(start),
                0 < n,
                i <= n,
                forall|j: int|
                    0 <= j < n ==> is_vacant(start, (#[trigger] actions@[j]).0 as int, actions@[j].1 as int),
                room == 1 + probe_budget((empty_count(start) - 1) as nat),
                0 <= first_depth <= depth <= first_depth + i * room,
                first_depth + probe_budget(empty_count(start)) <= i32::MAX,
                i == 0 ==> m == worst(player),
                i > 0 ==> -1 <= m <= 1,
            ensures
                (m as int, depth as int) == total,
                -1 <= m <= 1,
                first_depth <= depth <= first_depth + probe_budget(empty_count(start)),
            decreases n - i,
        {
            let (row, col) = actions[i];
            proof {
                lemma_with_mark_count(start, row as int, col as int, player);
                lemma_with_mark_undo(start, row as int, col as int, player);
                lemma_probe_budget_step(empty_count(start), i as nat, first_depth as int, depth as int);
            }
            self.set_move(board, player, row, col);
            let (value, reached) = self.minimax(board, player.not(), alpha, beta, depth + 1);
            depth = reached;
            m = prefer(player, m, value);
            self.undo_move(board, row, col);
            if player == Entity::Computer {
                alpha = prefer(player, alpha, m);
            } else {
                beta = prefer(player, beta, m);
            }
            i += 1;
            if beta <= alpha {
                break;
            }
        }
        (m, depth)
    }
}

} // verus!
