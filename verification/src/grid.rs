//! The mathematical model of a board: a square matrix of cells, the list of
//! its empty cells, the number of cells of each kind, and its score.

use vstd::prelude::*;
use crate::board::Cell;
use crate::player::Player;

verus! {

/// A board as a matrix: `g[i][j]` is the cell in row `i`, column `j`.
pub type Grid = Seq<Seq<Cell>>;

/// The smallest board on which a run of three fits.
pub const MIN_SIZE: usize = 3;

/// The largest board whose score surely fits in an `i32`: four runs start at
/// each cell at most, and `4 * 23170 * 23170 <= i32::MAX`.
pub const MAX_SIZE: usize = 23170;

/// Every row is as long as the matrix is high.
pub open spec fn is_square(g: Grid) -> bool {
    forall|i: int| 0 <= i < g.len() ==> (#[trigger] g[i]).len() == g.len()
}

/// A square matrix of an admissible size.
pub open spec fn valid_grid(g: Grid) -> bool {
    &&& MIN_SIZE <= g.len() <= MAX_SIZE
    &&& is_square(g)
}

/// `(i, j)` names a cell of `g`.
pub open spec fn in_grid(g: Grid, i: int, j: int) -> bool {
    0 <= i < g.len() && 0 <= j < g.len()
}

/// The mark that a player leaves in a cell.
pub open spec fn mark_of(player: Player) -> Cell {
    match player {
        Player::X => Cell::X,
        Player::O => Cell::O,
    }
}

/// `g` with the cell `(i, j)` replaced by `c`.
pub open spec fn with_cell(g: Grid, i: int, j: int, c: Cell) -> Grid {
    g.update(i, g[i].update(j, c))
}

/// The cell `(i, j)` of a framed grid: `frame` in the outermost rows and
/// columns, empty inside.
pub open spec fn framed_cell(size: int, i: int, j: int, frame: Cell) -> Cell {
    if i == 0 || j == 0 || i == size - 1 || j == size - 1 {
        frame
    } else {
        Cell::Empty
    }
}

/// A grid of the given size whose outermost rows and columns hold `frame`
/// and whose interior is empty.
pub open spec fn framed_grid(size: int, frame: Cell) -> Grid {
    Seq::new(size as nat, |i: int| Seq::new(size as nat, |j: int| framed_cell(size, i, j, frame)))
}

/// A grid of the given size with all cells empty.
pub open spec fn blank_grid(size: int) -> Grid {
    framed_grid(size, Cell::Empty)
}

/// A grid of the given size with walls all around and an empty interior.
pub open spec fn walled_grid(size: int) -> Grid {
    framed_grid(size, Cell::Wall)
}

/// A move onto `(i, j)` is legal: the cell is on the grid and empty.
pub open spec fn can_apply(g: Grid, i: int, j: int) -> bool {
    in_grid(g, i, j) && g[i][j] == Cell::Empty
}

/// The player's move onto `(i, j)` can be retracted: the cell is on the grid
/// and holds that player's mark.
pub open spec fn can_undo(g: Grid, i: int, j: int, player: Player) -> bool {
    in_grid(g, i, j) && g[i][j] == mark_of(player)
}

/// The empty cells among the first `j` of row `i`, by ascending column.
pub open spec fn row_empties(g: Grid, i: int, j: int) -> Seq<(usize, usize)>
    decreases j,
{
    if j <= 0 {
        Seq::empty()
    } else if g[i][j - 1] == Cell::Empty {
        row_empties(g, i, j - 1).push((i as usize, (j - 1) as usize))
    } else {
        row_empties(g, i, j - 1)
    }
}

/// The empty cells of the first `i` rows, row after row.
pub open spec fn empties_before(g: Grid, i: int) -> Seq<(usize, usize)>
    decreases i,
{
    if i <= 0 {
        Seq::empty()
    } else {
        empties_before(g, i - 1) + row_empties(g, i - 1, g.len() as int)
    }
}

/// The coordinates of all empty cells, by ascending row and, within a row,
/// by ascending column.
pub open spec fn empty_cells(g: Grid) -> Seq<(usize, usize)> {
    empties_before(g, g.len() as int)
}

/// How many of the first `j` cells of `row` hold `c`.
pub open spec fn row_count(row: Seq<Cell>, c: Cell, j: int) -> nat
    decreases j,
{
    if j <= 0 {
        0
    } else if row[j - 1] == c {
        row_count(row, c, j - 1) + 1
    } else {
        row_count(row, c, j - 1)
    }
}

/// How many cells of the first `i` rows hold `c`.
pub open spec fn count_before(g: Grid, c: Cell, i: int) -> nat
    decreases i,
{
    if i <= 0 {
        0
    } else {
        count_before(g, c, i - 1) + row_count(g[i - 1], c, g.len() as int)
    }
}

/// How many cells of the grid hold `c`.
pub open spec fn count_of(g: Grid, c: Cell) -> nat {
    count_before(g, c, g.len() as int)
}

/// `g` after the moves of `ms` were made in order, each putting its player's
/// mark on its cell.
pub open spec fn played(g: Grid, ms: Seq<((usize, usize), Player)>) -> Grid
    decreases ms.len(),
{
    if ms.len() == 0 {
        g
    } else {
        let (m, player) = ms.last();
        with_cell(played(g, ms.drop_last()), m.0 as int, m.1 as int, mark_of(player))
    }
}

/// The moves of `ms` name cells of `g`, and no two of them the same cell.
pub open spec fn distinct_cells(g: Grid, ms: Seq<((usize, usize), Player)>) -> bool {
    &&& forall|k: int| 0 <= k < ms.len() ==> in_grid(g, (#[trigger] ms[k]).0.0 as int, ms[k].0.1 as int)
    &&& forall|k: int, l: int|
        0 <= k < ms.len() && 0 <= l < ms.len() && k != l ==> (#[trigger] ms[k]).0 != (
        #[trigger] ms[l]).0
}

/// Each pick names one of the cells that are still empty when it is made:
/// pick `k` is made when `k` of the `cells` cells are walls already. At
/// least one cell stays empty.
pub open spec fn picks_fit(cells: int, picks: Seq<usize>) -> bool {
    &&& picks.len() < cells
    &&& forall|k: int| 0 <= k < picks.len() ==> (#[trigger] picks[k]) + k < cells
}

/// `g` after one wall was placed for each pick, in order: a pick `p` turns
/// the empty cell number `p`, counted in row-major order from `0` among the
/// cells that are empty at that moment, into a wall.
pub open spec fn walls_placed(g: Grid, picks: Seq<usize>) -> Grid
    decreases picks.len(),
{
    if picks.len() == 0 {
        g
    } else {
        let before = walls_placed(g, picks.drop_last());
        let target = empty_cells(before)[picks.last() as int];
        with_cell(before, target.0 as int, target.1 as int, Cell::Wall)
    }
}

/// What one run of three cells is worth: `1` if `X` holds all three, `-1` if
/// `O` does, and `0` otherwise.
pub open spec fn triple_value(a: Cell, b: Cell, c: Cell) -> int {
    if a == Cell::X && b == Cell::X && c == Cell::X {
        1
    } else if a == Cell::O && b == Cell::O && c == Cell::O {
        -1
    } else {
        0
    }
}

/// The worth of the run that starts at `(i, j)` and advances by `(di, dj)`;
/// `0` where the run would leave the grid.
pub open spec fn run_value(g: Grid, i: int, j: int, di: int, dj: int) -> int {
    if in_grid(g, i, j) && in_grid(g, i + 2 * di, j + 2 * dj) {
        triple_value(g[i][j], g[i + di][j + dj], g[i + 2 * di][j + 2 * dj])
    } else {
        0
    }
}

/// The worth of the four runs that start at `(i, j)`: to the right, down,
/// down to the right, and down to the left.
pub open spec fn cell_score(g: Grid, i: int, j: int) -> int {
    run_value(g, i, j, 0, 1) + run_value(g, i, j, 1, 0) + run_value(g, i, j, 1, 1) + run_value(
        g,
        i,
        j,
        1,
        -1,
    )
}

/// The worth of the runs that start in the first `j` cells of row `i`.
pub open spec fn row_score(g: Grid, i: int, j: int) -> int
    decreases j,
{
    if j <= 0 {
        0
    } else {
        row_score(g, i, j - 1) + cell_score(g, i, j - 1)
    }
}

/// The worth of the runs that start in the first `i` rows.
pub open spec fn score_before(g: Grid, i: int) -> int
    decreases i,
{
    if i <= 0 {
        0
    } else {
        score_before(g, i - 1) + row_score(g, i - 1, g.len() as int)
    }
}

/// The score of a grid: the sum of the worth of every run of three cells in
/// a row, a column or a diagonal. Runs may overlap; each counts.
pub open spec fn score_of(g: Grid) -> int {
    score_before(g, g.len() as int)
}

} // verus!
