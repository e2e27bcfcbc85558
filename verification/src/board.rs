//! The grid and what can be read off it: lines, empty cells, counts.

use crate::entity::Entity;
use vstd::prelude::*;

verus! {

/// The grid, row by row: `board[r][c]` is the cell in row `r` and column `c`.
pub type Board = [[Entity; 3]; 3];

/// Whether `(r, c)` names a cell of the grid.
pub open spec fn in_grid(r: int, c: int) -> bool {
    0 <= r < 3 && 0 <= c < 3
}

/// The grid on which nothing has been played.
pub open spec fn blank() -> Board {
    [
        [Entity::Empty, Entity::Empty, Entity::Empty],
        [Entity::Empty, Entity::Empty, Entity::Empty],
        [Entity::Empty, Entity::Empty, Entity::Empty],
    ]
}

/// A row in which column `c` holds `e` and the other cells are those of `row`.
pub open spec fn row_with(row: [Entity; 3], c: int, e: Entity) -> [Entity; 3] {
    [
        if c == 0 { e } else { row[0] },
        if c == 1 { e } else { row[1] },
        if c == 2 { e } else { row[2] },
    ]
}

/// The grid in which cell `(r, c)` holds `e` and every other cell is that of
/// `b`. Outside the grid nothing changes.
pub open spec fn with_mark(b: Board, r: int, c: int, e: Entity) -> Board {
    [
        if r == 0 { row_with(b[0], c, e) } else { b[0] },
        if r == 1 { row_with(b[1], c, e) } else { b[1] },
        if r == 2 { row_with(b[2], c, e) } else { b[2] },
    ]
}

pub open spec fn owns_row(b: Board, e: Entity, r: int) -> bool {
    b[r][0] == e && b[r][1] == e && b[r][2] == e
}

pub open spec fn owns_column(b: Board, e: Entity, c: int) -> bool {
    b[0][c] == e && b[1][c] == e && b[2][c] == e
}

pub open spec fn owns_diagonal(b: Board, e: Entity) -> bool {
    b[0][0] == e && b[1][1] == e && b[2][2] == e
}

pub open spec fn owns_anti_diagonal(b: Board, e: Entity) -> bool {
    b[0][2] == e && b[1][1] == e && b[2][0] == e
}

/// Some row, column or diagonal holds `e` in all three cells.
pub open spec fn has_line(b: Board, e: Entity) -> bool {
    ||| owns_row(b, e, 0)
    ||| owns_row(b, e, 1)
    ||| owns_row(b, e, 2)
    ||| owns_column(b, e, 0)
    ||| owns_column(b, e, 1)
    ||| owns_column(b, e, 2)
    ||| owns_diagonal(b, e)
    ||| owns_anti_diagonal(b, e)
}

/// One of the lines that pass through `(r, c)` holds `e` in all three cells.
pub open spec fn has_line_through(b: Board, e: Entity, r: int, c: int) -> bool {
    ||| owns_row(b, e, r)
    ||| owns_column(b, e, c)
    ||| (r == c && owns_diagonal(b, e))
    ||| (r + c == 2 && owns_anti_diagonal(b, e))
}

/// `(r, c)` names a cell of the grid, and that cell is empty.
pub open spec fn is_vacant(b: Board, r: int, c: int) -> bool {
    in_grid(r, c) && b[r][c] == Entity::Empty
}

/// 1 for an empty cell, 0 for a marked one.
pub open spec fn vacancy(e: Entity) -> nat {
    if e == Entity::Empty { 1 } else { 0 }
}

/// The number of empty cells.
pub open spec fn empty_count(b: Board) -> nat {
    vacancy(b[0][0]) + vacancy(b[0][1]) + vacancy(b[0][2])
        + vacancy(b[1][0]) + vacancy(b[1][1]) + vacancy(b[1][2])
        + vacancy(b[2][0]) + vacancy(b[2][1]) + vacancy(b[2][2])
}

/// The number of cells that hold a mark.
pub open spec fn occupied_count(b: Board) -> nat {
    (9 - empty_count(b)) as nat
}

/// No cell is empty.
pub open spec fn is_full(b: Board) -> bool {
    empty_count(b) == 0
}

/// The cell with number `k`, the cells being numbered row by row from 0 to 8.
pub open spec fn nth_cell(b: Board, k: int) -> Entity {
    b[k / 3][k % 3]
}

/// The empty cells among the first `k` cells, in row-major order.
pub open spec fn empty_cells_before(b: Board, k: int) -> Seq<(usize, usize)>
    decreases k,
{
    if k <= 0 {
        Seq::empty()
    } else {
        let earlier = empty_cells_before(b, k - 1);
        if nth_cell(b, k - 1) == Entity::Empty {
            earlier.push((((k - 1) / 3) as usize, ((k - 1) % 3) as usize))
        } else {
            earlier
        }
    }
}

/// The empty cells of the grid, in row-major order: row 0 from column 0 to
/// column 2, then row 1, then row 2.
pub open spec fn empty_cells(b: Board) -> Seq<(usize, usize)> {
    empty_cells_before(b, 9)
}

/// The number of a cell in row-major order.
pub open spec fn cell_number(cell: (usize, usize)) -> int {
    3 * cell.0 + cell.1
}

/// Reads whether the grid is full.
pub fn board_is_full(board: &Board) -> (full: bool)
    ensures
        full == is_full(*board),
{
    let mut r: usize = 0;
    let mut full: bool = true;
    while r < 3
        invariant
            r <= 3,
            full == (forall|i: int, j: int| 0 <= i < r && 0 <= j < 3 ==> board[i][j] != Entity::Empty),
        decreases 3 - r,
    {
        let mut c: usize = 0;
        while c < 3
            invariant
                r < 3,
                c <= 3,
                full == ((forall|i: int, j: int| 0 <= i < r && 0 <= j < 3 ==> board[i][j] != Entity::Empty)
                    && (forall|j: int| 0 <= j < c ==> board[r as int][j] != Entity::Empty)),
            decreases 3 - c,
        {
            if board[r][c] == Entity::Empty {
                full = false;
            }
            c += 1;
        }
        r += 1;
    }
    full
}

/// Writing a player's mark into an empty cell leaves one empty cell fewer;
/// clearing a marked cell leaves one more.
pub proof fn lemma_with_mark_count(b: Board, r: int, c: int, e: Entity)
    requires
        in_grid(r, c),
    ensures
        with_mark(b, r, c, e)[r][c] == e,
        forall|i: int, j: int| in_grid(i, j) && (i != r || j != c) ==> with_mark(b, r, c, e)[i][j] == b[i][j],
        b[r][c] == Entity::Empty && e != Entity::Empty ==> empty_count(with_mark(b, r, c, e)) + 1 == empty_count(b),
        b[r][c] != Entity::Empty && e == Entity::Empty ==> empty_count(with_mark(b, r, c, e)) == empty_count(b) + 1,
        (b[r][c] == Entity::Empty) == (e == Entity::Empty) ==> empty_count(with_mark(b, r, c, e)) == empty_count(b),
{
}

/// Writing a cell and then writing back what it held gives the grid back.
pub proof fn lemma_with_mark_undo(b: Board, r: int, c: int, e: Entity)
    requires
        in_grid(r, c),
    ensures
        with_mark(with_mark(b, r, c, e), r, c, b[r][c]) == b,
{
    let back = with_mark(with_mark(b, r, c, e), r, c, b[r][c]);
    assert(back[0] =~= b[0]);
    assert(back[1] =~= b[1]);
    assert(back[2] =~= b[2]);
    assert(back =~= b);
}

/// What the list of the empty cells among the first `k` cells holds: empty
/// cells only, each of them, in rising order of their numbers.
pub proof fn lemma_empty_cells_before(b: Board, k: int)
    requires
        0 <= k <= 9,
    ensures
        empty_cells_before(b, k).len() <= k,
        forall|j: int|
            0 <= j < empty_cells_before(b, k).len() ==> {
                let cell = #[trigger] empty_cells_before(b, k)[j];
                is_vacant(b, cell.0 as int, cell.1 as int) && cell_number(cell) < k
            },
        forall|i: int, j: int|
            0 <= i < j < empty_cells_before(b, k).len() ==> cell_number(
                #[trigger] empty_cells_before(b, k)[i],
            ) < cell_number(#[trigger] empty_cells_before(b, k)[j]),
        forall|r: int, c: int|
            #[trigger] is_vacant(b, r, c) && 3 * r + c < k ==> exists|j: int|
                0 <= j < empty_cells_before(b, k).len() && #[trigger] empty_cells_before(b, k)[j] == (
                    r as usize,
                    c as usize,
                ),
    decreases k,
{
    if k > 0 {
        lemma_empty_cells_before(b, k - 1);
        let earlier = empty_cells_before(b, k - 1);
        let cells = empty_cells_before(b, k);
        let last = (((k - 1) / 3) as usize, ((k - 1) % 3) as usize);
        assert(cell_number(last) == k - 1);
        assert forall|r: int, c: int| #[trigger] is_vacant(b, r, c) && 3 * r + c < k implies exists|
            j: int,
        |
            0 <= j < cells.len() && #[trigger] cells[j] == (r as usize, c as usize) by {
            if 3 * r + c < k - 1 {
                let j = choose|j: int|
                    0 <= j < earlier.len() && #[trigger] earlier[j] == (r as usize, c as usize);
                assert(cells[j] == earlier[j]);
            } else {
                assert(r == (k - 1) / 3 && c == (k - 1) % 3);
                assert(cells[cells.len() - 1] == last);
            }
        }
    }
}

/// The list of the empty cells is as long as the count of the empty cells.
pub proof fn lemma_empty_cells_len(b: Board)
    ensures
        empty_cells(b).len() == empty_count(b),
{
    reveal_with_fuel(empty_cells_before, 10);
}

/// The list of the empty cells names every empty cell once, in row-major
/// order, and nothing else.
pub proof fn lemma_empty_cells(b: Board)
    ensures
        empty_cells(b).len() == empty_count(b),
        forall|j: int|
            0 <= j < empty_cells(b).len() ==> is_vacant(
                b,
                (#[trigger] empty_cells(b)[j]).0 as int,
                empty_cells(b)[j].1 as int,
            ),
        forall|i: int, j: int|
            0 <= i < j < empty_cells(b).len() ==> cell_number(#[trigger] empty_cells(b)[i])
                < cell_number(#[trigger] empty_cells(b)[j]),
        forall|r: int, c: int|
            #[trigger] is_vacant(b, r, c) ==> exists|j: int|
                0 <= j < empty_cells(b).len() && #[trigger] empty_cells(b)[j] == (
                    r as usize,
                    c as usize,
                ),
{
    lemma_empty_cells_before(b, 9);
    lemma_empty_cells_len(b);
}

} // verus!
