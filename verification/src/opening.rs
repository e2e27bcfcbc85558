//! The opening: moving first on a blank grid, the automated player cannot be
//! made to lose. The proof plays the opening out: the first mark goes into a
//! corner, and for every reply of the opponent a move is named that wins at
//! once, fills the grid without a loss, or leads to a grid treated before.

use crate::board::{
    blank, empty_count, has_line, in_grid, is_vacant, lemma_with_mark_count, with_mark, Board,
};
use crate::entity::Entity;
use crate::search::{is_over, value};
use crate::values::{lemma_value_is_best_reply, reply_value};
use vstd::prelude::*;

verus! {

const X: Entity = Entity::Computer;

const O: Entity = Entity::Human;

const N: Entity = Entity::Empty;

/// The grid with the given cells, row by row.
pub open spec fn grid(
    a: Entity,
    b: Entity,
    c: Entity,
    d: Entity,
    e: Entity,
    f: Entity,
    g: Entity,
    h: Entity,
    i: Entity,
) -> Board {
    [[a, b, c], [d, e, f], [g, h, i]]
}

/// The grid after the automated player has marked `(r, c)`.
pub open spec fn ours(b: Board, r: int, c: int) -> Board {
    with_mark(b, r, c, Entity::Computer)
}

/// The grid after the opponent has marked `(r, c)`.
pub open spec fn theirs(b: Board, r: int, c: int) -> Board {
    with_mark(b, r, c, Entity::Human)
}

/// With the opponent to move, the automated player cannot be made to lose.
pub open spec fn holds(b: Board) -> bool {
    value(b, Entity::Human) >= 0
}

/// Two grids with the same nine cells are the same grid.
proof fn lemma_same_grid(a: Board, b: Board)
    requires
        a[0][0] == b[0][0],
        a[0][1] == b[0][1],
        a[0][2] == b[0][2],
        a[1][0] == b[1][0],
        a[1][1] == b[1][1],
        a[1][2] == b[1][2],
        a[2][0] == b[2][0],
        a[2][1] == b[2][1],
        a[2][2] == b[2][2],
    ensures
        a == b,
{
    assert(a[0] =~= b[0]);
    assert(a[1] =~= b[1]);
    assert(a[2] =~= b[2]);
    assert(a =~= b);
}

/// A move after which the automated player cannot be made to lose shows that
/// it is not losing before the move.
proof fn lemma_answer(q: Board, r: int, c: int)
    requires
        !is_over(q),
        is_vacant(q, r, c),
        value(ours(q, r, c), Entity::Human) >= 0,
    ensures
        value(q, Entity::Computer) >= 0,
{
    lemma_value_is_best_reply(q, Entity::Computer);
    assert(reply_value(q, Entity::Computer, r, c) >= 0);
}

/// Where every move of the opponent leaves the automated player not losing,
/// it is not losing before that move either.
proof fn lemma_replies_suffice(p: Board)
    requires
        !is_over(p),
        forall|r: int, c: int| #[trigger] is_vacant(p, r, c) ==> value(theirs(p, r, c), Entity::Computer) >= 0,
    ensures
        holds(p),
{
    lemma_value_is_best_reply(p, Entity::Human);
    let (r, c) = choose|r: int, c: int| #[trigger]
        is_vacant(p, r, c) && reply_value(p, Entity::Human, r, c) == value(p, Entity::Human);
    assert(reply_value(p, Entity::Human, r, c) == value(theirs(p, r, c), Entity::Computer));
}

/// A grid that holds `e` wherever another grid holds it has every line of
/// `e` that the other has.
proof fn lemma_lines_carry_over(a: Board, b: Board, e: Entity)
    requires
        forall|i: int, j: int| in_grid(i, j) && a[i][j] == e ==> b[i][j] == e,
    ensures
        has_line(a, e) ==> has_line(b, e),
{
    assert(in_grid(0, 0) && in_grid(0, 1) && in_grid(0, 2));
    assert(in_grid(1, 0) && in_grid(1, 1) && in_grid(1, 2));
    assert(in_grid(2, 0) && in_grid(2, 1) && in_grid(2, 2));
}

/// A standing threat. The automated player would complete a line at
/// `(tr, tc)`, the opponent cannot complete one with its next mark, and
/// blocking `(tr, tc)` leaves the automated player not losing. Then any other
/// mark of the opponent is answered at `(tr, tc)`.
proof fn lemma_threat(p: Board, tr: int, tc: int)
    requires
        !is_over(p),
        is_vacant(p, tr, tc),
        has_line(ours(p, tr, tc), Entity::Computer),
        forall|r: int, c: int| #[trigger] is_vacant(p, r, c) ==> !has_line(theirs(p, r, c), Entity::Human),
        value(theirs(p, tr, tc), Entity::Computer) >= 0,
    ensures
        holds(p),
{
    assert forall|r: int, c: int| #[trigger] is_vacant(p, r, c) implies value(
        theirs(p, r, c),
        Entity::Computer,
    ) >= 0 by {
        if r != tr || c != tc {
            let q = theirs(p, r, c);
            lemma_with_mark_count(p, r, c, Entity::Human);
            lemma_with_mark_count(p, tr, tc, Entity::Computer);
            lemma_with_mark_count(q, tr, tc, Entity::Computer);
            lemma_lines_carry_over(q, p, Entity::Computer);
            lemma_lines_carry_over(ours(p, tr, tc), ours(q, tr, tc), Entity::Computer);
            assert(is_vacant(q, tr, tc));
            assert(empty_count(ours(q, tr, tc)) + 1 == empty_count(q));
            lemma_answer(q, tr, tc);
        }
    }
    lemma_replies_suffice(p);
}

/// X O X
/// . . .
/// X . O
///
/// Marks at (1, 0) and at (1, 1) would each complete a line.
proof fn lemma_holds_xox___x_o()
    ensures
        holds(grid(X, O, X, N, N, N, X, N, O)),
{
    let p = grid(X, O, X, N, N, N, X, N, O);
    let blocked = theirs(p, 1, 0);
    lemma_answer(blocked, 1, 1);
    lemma_threat(p, 1, 0);
}

/// X . X
/// . . .
/// . . O
///
/// A mark at (0, 1) would complete a line. Once that cell is blocked, the
/// reply is (2, 0).
proof fn lemma_holds_x_x_____o()
    ensures
        holds(grid(X, N, X, N, N, N, N, N, O)),
{
    let p = grid(X, N, X, N, N, N, N, N, O);
    let blocked = theirs(p, 0, 1);
    lemma_holds_xox___x_o();
    lemma_same_grid(ours(blocked, 2, 0), grid(X, O, X, N, N, N, X, N, O));
    lemma_answer(blocked, 2, 0);
    lemma_threat(p, 0, 1);
}

/// X O X
/// . X .
/// . O .
///
/// Marks at (2, 0) and at (2, 2) would each complete a line.
proof fn lemma_holds_xox_x__o_()
    ensures
        holds(grid(X, O, X, N, X, N, N, O, N)),
{
    let p = grid(X, O, X, N, X, N, N, O, N);
    let blocked = theirs(p, 2, 0);
    lemma_answer(blocked, 2, 2);
    lemma_threat(p, 2, 0);
}

/// X . X
/// . . .
/// . O .
///
/// A mark at (0, 1) would complete a line. Once that cell is blocked, the
/// reply is (1, 1).
proof fn lemma_holds_x_x____o_()
    ensures
        holds(grid(X, N, X, N, N, N, N, O, N)),
{
    let p = grid(X, N, X, N, N, N, N, O, N);
    let blocked = theirs(p, 0, 1);
    lemma_holds_xox_x__o_();
    lemma_same_grid(ours(blocked, 1, 1), grid(X, O, X, N, X, N, N, O, N));
    lemma_answer(blocked, 1, 1);
    lemma_threat(p, 0, 1);
}

/// X X O
/// . X .
/// O . .
///
/// Marks at (2, 1) and at (2, 2) would each complete a line.
proof fn lemma_holds_xxo_x_o__()
    ensures
        holds(grid(X, X, O, N, X, N, O, N, N)),
{
    let p = grid(X, X, O, N, X, N, O, N, N);
    let blocked = theirs(p, 2, 1);
    lemma_answer(blocked, 2, 2);
    lemma_threat(p, 2, 1);
}

/// X X .
/// . . .
/// O . .
///
/// A mark at (0, 2) would complete a line. Once that cell is blocked, the
/// reply is (1, 1).
proof fn lemma_holds_xx____o__()
    ensures
        holds(grid(X, X, N, N, N, N, O, N, N)),
{
    let p = grid(X, X, N, N, N, N, O, N, N);
    let blocked = theirs(p, 0, 2);
    lemma_holds_xxo_x_o__();
    lemma_same_grid(ours(blocked, 1, 1), grid(X, X, O, N, X, N, O, N, N));
    lemma_answer(blocked, 1, 1);
    lemma_threat(p, 0, 2);
}

/// X O X
/// . X O
/// . . .
///
/// Marks at (2, 0) and at (2, 2) would each complete a line.
proof fn lemma_holds_xox_xo___()
    ensures
        holds(grid(X, O, X, N, X, O, N, N, N)),
{
    let p = grid(X, O, X, N, X, O, N, N, N);
    let blocked = theirs(p, 2, 0);
    lemma_answer(blocked, 2, 2);
    lemma_threat(p, 2, 0);
}

/// X . X
/// . . O
/// . . .
///
/// A mark at (0, 1) would complete a line. Once that cell is blocked, the
/// reply is (1, 1).
proof fn lemma_holds_x_x__o___()
    ensures
        holds(grid(X, N, X, N, N, O, N, N, N)),
{
    let p = grid(X, N, X, N, N, O, N, N, N);
    let blocked = theirs(p, 0, 1);
    lemma_holds_xox_xo___();
    lemma_same_grid(ours(blocked, 1, 1), grid(X, O, X, N, X, O, N, N, N));
    lemma_answer(blocked, 1, 1);
    lemma_threat(p, 0, 1);
}

/// X X O
/// O O X
/// X . .
///
/// Two cells are left, and no line can be completed through either: the
/// grid fills up without a winner.
proof fn lemma_holds_xxoooxx__()
    ensures
        holds(grid(X, X, O, O, O, X, X, N, N)),
{
    let p = grid(X, X, O, O, O, X, X, N, N);
    assert forall|r: int, c: int| #[trigger] is_vacant(p, r, c) implies value(theirs(p, r, c), Entity::Computer) >= 0 by {
        if r == 2 && c == 1 {
            lemma_answer(theirs(p, 2, 1), 2, 2);
        } else if r == 2 && c == 2 {
            lemma_answer(theirs(p, 2, 2), 2, 1);
        }
    }
    lemma_replies_suffice(p);
}

/// X X O
/// . O .
/// X . .
///
/// A mark at (1, 0) would complete a line. Once that cell is blocked, the
/// reply is (1, 2).
proof fn lemma_holds_xxo_o_x__()
    ensures
        holds(grid(X, X, O, N, O, N, X, N, N)),
{
    let p = grid(X, X, O, N, O, N, X, N, N);
    let blocked = theirs(p, 1, 0);
    lemma_holds_xxoooxx__();
    lemma_same_grid(ours(blocked, 1, 2), grid(X, X, O, O, O, X, X, N, N));
    lemma_answer(blocked, 1, 2);
    lemma_threat(p, 1, 0);
}

/// X X .
/// . O .
/// . . .
///
/// A mark at (0, 2) would complete a line. Once that cell is blocked, the
/// reply is (2, 0).
proof fn lemma_holds_xx__o____()
    ensures
        holds(grid(X, X, N, N, O, N, N, N, N)),
{
    let p = grid(X, X, N, N, O, N, N, N, N);
    let blocked = theirs(p, 0, 2);
    lemma_holds_xxo_o_x__();
    lemma_same_grid(ours(blocked, 2, 0), grid(X, X, O, N, O, N, X, N, N));
    lemma_answer(blocked, 2, 0);
    lemma_threat(p, 0, 2);
}

/// X X O
/// O X .
/// . . .
///
/// Marks at (2, 1) and at (2, 2) would each complete a line.
proof fn lemma_holds_xxoox____()
    ensures
        holds(grid(X, X, O, O, X, N, N, N, N)),
{
    let p = grid(X, X, O, O, X, N, N, N, N);
    let blocked = theirs(p, 2, 1);
    lemma_answer(blocked, 2, 2);
    lemma_threat(p, 2, 1);
}

/// X X .
/// O . .
/// . . .
///
/// A mark at (0, 2) would complete a line. Once that cell is blocked, the
/// reply is (1, 1).
proof fn lemma_holds_xx_o_____()
    ensures
        holds(grid(X, X, N, O, N, N, N, N, N)),
{
    let p = grid(X, X, N, O, N, N, N, N, N);
    let blocked = theirs(p, 0, 2);
    lemma_holds_xxoox____();
    lemma_same_grid(ours(blocked, 1, 1), grid(X, X, O, O, X, N, N, N, N));
    lemma_answer(blocked, 1, 1);
    lemma_threat(p, 0, 2);
}

/// X . O
/// X X .
/// O . .
///
/// Marks at (1, 2) and at (2, 2) would each complete a line.
proof fn lemma_holds_x_oxx_o__()
    ensures
        holds(grid(X, N, O, X, X, N, O, N, N)),
{
    let p = grid(X, N, O, X, X, N, O, N, N);
    let blocked = theirs(p, 1, 2);
    lemma_answer(blocked, 2, 2);
    lemma_threat(p, 1, 2);
}

/// X . O
/// X . .
/// . . .
///
/// A mark at (2, 0) would complete a line. Once that cell is blocked, the
/// reply is (1, 1).
proof fn lemma_holds_x_ox_____()
    ensures
        holds(grid(X, N, O, X, N, N, N, N, N)),
{
    let p = grid(X, N, O, X, N, N, N, N, N);
    let blocked = theirs(p, 2, 0);
    lemma_holds_x_oxx_o__();
    lemma_same_grid(ours(blocked, 1, 1), grid(X, N, O, X, X, N, O, N, N));
    lemma_answer(blocked, 1, 1);
    lemma_threat(p, 2, 0);
}

/// X O .
/// X X .
/// O . .
///
/// Marks at (1, 2) and at (2, 2) would each complete a line.
proof fn lemma_holds_xo_xx_o__()
    ensures
        holds(grid(X, O, N, X, X, N, O, N, N)),
{
    let p = grid(X, O, N, X, X, N, O, N, N);
    let blocked = theirs(p, 1, 2);
    lemma_answer(blocked, 2, 2);
    lemma_threat(p, 1, 2);
}

/// X O .
/// X . .
/// . . .
///
/// A mark at (2, 0) would complete a line. Once that cell is blocked, the
/// reply is (1, 1).
proof fn lemma_holds_xo_x_____()
    ensures
        holds(grid(X, O, N, X, N, N, N, N, N)),
{
    let p = grid(X, O, N, X, N, N, N, N, N);
    let blocked = theirs(p, 2, 0);
    lemma_holds_xo_xx_o__();
    lemma_same_grid(ours(blocked, 1, 1), grid(X, O, N, X, X, N, O, N, N));
    lemma_answer(blocked, 1, 1);
    lemma_threat(p, 2, 0);
}

/// X . .
/// . . .
/// . . .
///
/// Nothing is threatened yet: each of the eight replies has an answer of its
/// own, which sets up a threat.
#[verifier::rlimit(50)]
proof fn lemma_holds_x________()
    ensures
        holds(grid(X, N, N, N, N, N, N, N, N)),
{
    let p = grid(X, N, N, N, N, N, N, N, N);
    assert forall|r: int, c: int| #[trigger] is_vacant(p, r, c) implies value(theirs(p, r, c), Entity::Computer) >= 0 by {
        if r == 0 && c == 1 {
            lemma_holds_xo_x_____();
            lemma_same_grid(ours(theirs(p, 0, 1), 1, 0), grid(X, O, N, X, N, N, N, N, N));
            lemma_answer(theirs(p, 0, 1), 1, 0);
        } else if r == 0 && c == 2 {
            lemma_holds_x_ox_____();
            lemma_same_grid(ours(theirs(p, 0, 2), 1, 0), grid(X, N, O, X, N, N, N, N, N));
            lemma_answer(theirs(p, 0, 2), 1, 0);
        } else if r == 1 && c == 0 {
            lemma_holds_xx_o_____();
            lemma_same_grid(ours(theirs(p, 1, 0), 0, 1), grid(X, X, N, O, N, N, N, N, N));
            lemma_answer(theirs(p, 1, 0), 0, 1);
        } else if r == 1 && c == 1 {
            lemma_holds_xx__o____();
            lemma_same_grid(ours(theirs(p, 1, 1), 0, 1), grid(X, X, N, N, O, N, N, N, N));
            lemma_answer(theirs(p, 1, 1), 0, 1);
        } else if r == 1 && c == 2 {
            lemma_holds_x_x__o___();
            lemma_same_grid(ours(theirs(p, 1, 2), 0, 2), grid(X, N, X, N, N, O, N, N, N));
            lemma_answer(theirs(p, 1, 2), 0, 2);
        } else if r == 2 && c == 0 {
            lemma_holds_xx____o__();
            lemma_same_grid(ours(theirs(p, 2, 0), 0, 1), grid(X, X, N, N, N, N, O, N, N));
            lemma_answer(theirs(p, 2, 0), 0, 1);
        } else if r == 2 && c == 1 {
            lemma_holds_x_x____o_();
            lemma_same_grid(ours(theirs(p, 2, 1), 0, 2), grid(X, N, X, N, N, N, N, O, N));
            lemma_answer(theirs(p, 2, 1), 0, 2);
        } else if r == 2 && c == 2 {
            lemma_holds_x_x_____o();
            lemma_same_grid(ours(theirs(p, 2, 2), 0, 2), grid(X, N, X, N, N, N, N, N, O));
            lemma_answer(theirs(p, 2, 2), 0, 2);
        }
    }
    lemma_replies_suffice(p);
}

/// Moving first on a blank grid, the automated player cannot be made to lose:
/// the minimax value of the blank grid is not negative.
pub proof fn lemma_opening_holds()
    ensures
        value(blank(), Entity::Computer) >= 0,
{
    lemma_holds_x________();
    lemma_same_grid(ours(blank(), 0, 0), grid(X, N, N, N, N, N, N, N, N));
    lemma_answer(blank(), 0, 0);
}

} // verus!
