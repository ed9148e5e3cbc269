//! What holds of the list of empty cells and of the number of cells of each
//! kind, on every valid grid.

use vstd::prelude::*;
use crate::board::Cell;
use crate::grid::{
    blank_grid, count_before, count_of, empties_before, empty_cells, in_grid, picks_fit,
    row_count, row_empties, valid_grid, walls_placed, with_cell, Grid, MAX_SIZE, MIN_SIZE,
};

verus! {

/// `a` comes before `b` when the grid is read row by row.
pub open spec fn precedes(a: (usize, usize), b: (usize, usize)) -> bool {
    a.0 < b.0 || (a.0 == b.0 && a.1 < b.1)
}

/// The empty cells among the first `j` of row `i`: as many as the row counts,
/// each of them empty and in that row, by ascending column, none left out.
pub proof fn lemma_row_empties(g: Grid, i: int, j: int)
    requires
        valid_grid(g),
        0 <= i < g.len(),
        0 <= j <= g.len(),
    ensures
        row_empties(g, i, j).len() == row_count(g[i], Cell::Empty, j),
        forall|k: int|
            0 <= k < row_empties(g, i, j).len() ==> {
                let e = #[trigger] row_empties(g, i, j)[k];
                e.0 == i && e.1 < j && g[i][e.1 as int] == Cell::Empty
            },
        forall|k: int, l: int|
            0 <= k < l < row_empties(g, i, j).len() ==> (#[trigger] row_empties(g, i, j)[k]).1 < (
            #[trigger] row_empties(g, i, j)[l]).1,
        forall|c: int|
            0 <= c < j && #[trigger] g[i][c] == Cell::Empty ==> row_empties(g, i, j).contains(
                (i as usize, c as usize),
            ),
    decreases j,
{
    if j > 0 {
        lemma_row_empties(g, i, j - 1);
        let prev = row_empties(g, i, j - 1);
        let cur = row_empties(g, i, j);
        assert forall|c: int| 0 <= c < j && #[trigger] g[i][c] == Cell::Empty implies cur.contains(
            (i as usize, c as usize),
        ) by {
            if c == j - 1 {
                assert(cur[cur.len() - 1] == (i as usize, c as usize));
            } else {
                assert(prev.contains((i as usize, c as usize)));
                let k = choose|k: int| 0 <= k < prev.len() && prev[k] == (i as usize, c as usize);
                assert(cur[k] == (i as usize, c as usize));
            }
        }
    }
}

/// The empty cells of the first `i` rows: as many as these rows count, each
/// of them empty, listed row by row, none left out.
pub proof fn lemma_empties_before(g: Grid, i: int)
    requires
        valid_grid(g),
        0 <= i <= g.len(),
    ensures
        empties_before(g, i).len() == count_before(g, Cell::Empty, i),
        forall|k: int|
            0 <= k < empties_before(g, i).len() ==> {
                let e = #[trigger] empties_before(g, i)[k];
                e.0 < i && e.1 < g.len() && g[e.0 as int][e.1 as int] == Cell::Empty
            },
        forall|k: int, l: int|
            0 <= k < l < empties_before(g, i).len() ==> precedes(
                #[trigger] empties_before(g, i)[k],
                #[trigger] empties_before(g, i)[l],
            ),
        forall|r: int, c: int|
            0 <= r < i && 0 <= c < g.len() && #[trigger] g[r][c] == Cell::Empty
                ==> empties_before(g, i).contains((r as usize, c as usize)),
    decreases i,
{
    if i > 0 {
        let n = g.len() as int;
        lemma_empties_before(g, i - 1);
        lemma_row_empties(g, i - 1, n);
        let above = empties_before(g, i - 1);
        let row = row_empties(g, i - 1, n);
        let all = empties_before(g, i);
        assert(all == above + row);
        assert forall|k: int| 0 <= k < all.len() implies {
            let e = #[trigger] all[k];
            e.0 < i && e.1 < g.len() && g[e.0 as int][e.1 as int] == Cell::Empty
        } by {
            if k < above.len() {
                assert(all[k] == above[k]);
            } else {
                assert(all[k] == row[k - above.len()]);
            }
        }
        assert forall|k: int, l: int| 0 <= k < l < all.len() implies precedes(
            #[trigger] all[k],
            #[trigger] all[l],
        ) by {
            if l < above.len() {
                assert(all[k] == above[k] && all[l] == above[l]);
            } else if k < above.len() {
                assert(all[k] == above[k] && all[l] == row[l - above.len()]);
            } else {
                assert(all[k] == row[k - above.len()] && all[l] == row[l - above.len()]);
            }
        }
        assert forall|r: int, c: int|
            0 <= r < i && 0 <= c < g.len() && #[trigger] g[r][c] == Cell::Empty implies all.contains(
            (r as usize, c as usize),
        ) by {
            let e = (r as usize, c as usize);
            if r == i - 1 {
                assert(row.contains(e));
                let k = choose|k: int| 0 <= k < row.len() && row[k] == e;
                assert(all[above.len() + k] == e);
            } else {
                assert(above.contains(e));
                let k = choose|k: int| 0 <= k < above.len() && above[k] == e;
                assert(all[k] == e);
            }
        }
    }
}

/// The list of empty cells is exact: every entry names an empty cell of the
/// grid, the entries stand in row-major order, and every empty cell is
/// listed. Its length is the number of empty cells.
pub proof fn lemma_empty_cells_exact(g: Grid)
    requires
        valid_grid(g),
    ensures
        empty_cells(g).len() == count_of(g, Cell::Empty),
        forall|k: int|
            0 <= k < empty_cells(g).len() ==> {
                let e = #[trigger] empty_cells(g)[k];
                in_grid(g, e.0 as int, e.1 as int) && g[e.0 as int][e.1 as int] == Cell::Empty
            },
        forall|k: int, l: int|
            0 <= k < l < empty_cells(g).len() ==> precedes(
                #[trigger] empty_cells(g)[k],
                #[trigger] empty_cells(g)[l],
            ),
        forall|r: int, c: int|
            in_grid(g, r, c) && #[trigger] g[r][c] == Cell::Empty ==> empty_cells(g).contains(
                (r as usize, c as usize),
            ),
{
    lemma_empties_before(g, g.len() as int);
}

/// No cell is empty exactly when the list of empty cells has no entry.
pub proof fn lemma_full_grid(g: Grid)
    requires
        valid_grid(g),
    ensures
        (empty_cells(g).len() == 0) <==> (forall|r: int, c: int|
            in_grid(g, r, c) ==> #[trigger] g[r][c] != Cell::Empty),
{
    lemma_empty_cells_exact(g);
    if empty_cells(g).len() == 0 {
        assert forall|r: int, c: int| in_grid(g, r, c) implies #[trigger] g[r][c]
            != Cell::Empty by {
            if g[r][c] == Cell::Empty {
                assert(empty_cells(g).contains((r as usize, c as usize)));
            }
        }
    } else {
        let e = empty_cells(g)[0];
        assert(g[e.0 as int][e.1 as int] == Cell::Empty);
    }
}

/// Each of the first `j` cells of a row is of exactly one kind.
pub proof fn lemma_row_census(row: Seq<Cell>, j: int)
    requires
        0 <= j,
    ensures
        row_count(row, Cell::X, j) + row_count(row, Cell::O, j) + row_count(row, Cell::Empty, j)
            + row_count(row, Cell::Wall, j) == j,
    decreases j,
{
    if j > 0 {
        lemma_row_census(row, j - 1);
    }
}

/// Each cell of the first `i` rows is of exactly one kind.
pub proof fn lemma_census_before(g: Grid, i: int)
    requires
        0 <= i,
    ensures
        count_before(g, Cell::X, i) + count_before(g, Cell::O, i) + count_before(g, Cell::Empty, i)
            + count_before(g, Cell::Wall, i) == i * g.len(),
    decreases i,
{
    if i > 0 {
        lemma_census_before(g, i - 1);
        lemma_row_census(g[i - 1], g.len() as int);
        assert((i - 1) * g.len() + g.len() == i * g.len()) by (nonlinear_arith);
    } else {
        assert(0 * g.len() == 0);
    }
}

/// On every board the open moves, the marks and the walls together are all
/// the cells: the number of empty cells plus the number of cells that hold
/// `X`, `O` or a wall is the square of the size.
pub proof fn lemma_census(g: Grid)
    requires
        valid_grid(g),
    ensures
        empty_cells(g).len() == count_of(g, Cell::Empty),
        empty_cells(g).len() + count_of(g, Cell::X) + count_of(g, Cell::O) + count_of(
            g,
            Cell::Wall,
        ) == g.len() * g.len(),
{
    lemma_empty_cells_exact(g);
    lemma_census_before(g, g.len() as int);
}

/// By how much the number of cells that hold `d` changes when a cell that
/// held `was` comes to hold `now`.
pub open spec fn count_change(was: Cell, now: Cell, d: Cell) -> int {
    (if now == d {
        1int
    } else {
        0int
    }) - (if was == d {
        1int
    } else {
        0int
    })
}

/// Replacing one cell of a row changes the row's counts by that cell alone.
pub proof fn lemma_row_count_update(row: Seq<Cell>, at: int, now: Cell, d: Cell, j: int)
    requires
        0 <= at < row.len(),
        0 <= j <= row.len(),
    ensures
        row_count(row.update(at, now), d, j) == row_count(row, d, j) + (if at < j {
            count_change(row[at], now, d)
        } else {
            0
        }),
    decreases j,
{
    if j > 0 {
        lemma_row_count_update(row, at, now, d, j - 1);
    }
}

/// Replacing one cell of a grid changes the counts of the rows down to that
/// cell's row by that cell alone.
pub proof fn lemma_count_before_update(g: Grid, r: int, c: int, now: Cell, d: Cell, i: int)
    requires
        valid_grid(g),
        in_grid(g, r, c),
        0 <= i <= g.len(),
    ensures
        count_before(with_cell(g, r, c, now), d, i) == count_before(g, d, i) + (if r < i {
            count_change(g[r][c], now, d)
        } else {
            0
        }),
    decreases i,
{
    if i > 0 {
        lemma_count_before_update(g, r, c, now, d, i - 1);
        if r == i - 1 {
            lemma_row_count_update(g[r], c, now, d, g.len() as int);
        }
    }
}

/// Replacing one cell keeps the grid valid and changes the number of cells
/// of each kind by that cell alone.
pub proof fn lemma_count_with_cell(g: Grid, r: int, c: int, now: Cell, d: Cell)
    requires
        valid_grid(g),
        in_grid(g, r, c),
    ensures
        valid_grid(with_cell(g, r, c, now)),
        count_of(with_cell(g, r, c, now), d) == count_of(g, d) + count_change(g[r][c], now, d),
{
    lemma_count_before_update(g, r, c, now, d, g.len() as int);
}

/// In a row whose first `j` cells are all empty, `j` cells are empty.
pub proof fn lemma_row_all_empty(row: Seq<Cell>, j: int)
    requires
        0 <= j <= row.len(),
        forall|c: int| 0 <= c < j ==> #[trigger] row[c] == Cell::Empty,
    ensures
        row_count(row, Cell::Empty, j) == j,
    decreases j,
{
    if j > 0 {
        lemma_row_all_empty(row, j - 1);
    }
}

/// In the first `i` rows of a blank grid every cell is empty.
pub proof fn lemma_blank_before(size: int, i: int)
    requires
        0 <= i <= size,
    ensures
        count_before(blank_grid(size), Cell::Empty, i) == i * size,
    decreases i,
{
    if i > 0 {
        lemma_blank_before(size, i - 1);
        lemma_row_all_empty(blank_grid(size)[i - 1], size);
        assert((i - 1) * size + size == i * size) by (nonlinear_arith);
    } else {
        assert(0 * size == 0);
    }
}

/// A blank grid is valid and holds nothing but empty cells.
pub proof fn lemma_blank_grid(size: int)
    requires
        MIN_SIZE <= size <= MAX_SIZE,
    ensures
        valid_grid(blank_grid(size)),
        blank_grid(size).len() == size,
        count_of(blank_grid(size), Cell::Empty) == size * size,
        count_of(blank_grid(size), Cell::Wall) == 0,
        count_of(blank_grid(size), Cell::X) == 0,
        count_of(blank_grid(size), Cell::O) == 0,
{
    lemma_blank_before(size, size);
    lemma_census_before(blank_grid(size), size);
}

/// Walls placed on a blank grid by picks that fit: the grid stays valid, and
/// it holds exactly one wall for each pick, on as many different cells, and
/// no mark; all other cells are empty.
pub proof fn lemma_walls_placed(size: int, picks: Seq<usize>)
    requires
        MIN_SIZE <= size <= MAX_SIZE,
        picks_fit(size * size, picks),
    ensures
        valid_grid(walls_placed(blank_grid(size), picks)),
        walls_placed(blank_grid(size), picks).len() == size,
        count_of(walls_placed(blank_grid(size), picks), Cell::Wall) == picks.len(),
        count_of(walls_placed(blank_grid(size), picks), Cell::Empty) == size * size - picks.len(),
        count_of(walls_placed(blank_grid(size), picks), Cell::X) == 0,
        count_of(walls_placed(blank_grid(size), picks), Cell::O) == 0,
    decreases picks.len(),
{
    lemma_blank_grid(size);
    if picks.len() > 0 {
        let fewer = picks.drop_last();
        assert forall|k: int| 0 <= k < fewer.len() implies (#[trigger] fewer[k]) + k < size
            * size by {
            assert(fewer[k] == picks[k]);
        }
        lemma_walls_placed(size, fewer);
        let before = walls_placed(blank_grid(size), fewer);
        lemma_empty_cells_exact(before);
        let p = picks.last() as int;
        assert(picks[picks.len() - 1] + (picks.len() - 1) < size * size);
        let target = empty_cells(before)[p];
        let (r, c) = (target.0 as int, target.1 as int);
        lemma_count_with_cell(before, r, c, Cell::Wall, Cell::Wall);
        lemma_count_with_cell(before, r, c, Cell::Wall, Cell::Empty);
        lemma_count_with_cell(before, r, c, Cell::Wall, Cell::X);
        lemma_count_with_cell(before, r, c, Cell::Wall, Cell::O);
    }
}

} // verus!
