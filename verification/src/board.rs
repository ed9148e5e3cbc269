//! The board: its cells, the moves that are open, and the score.

use vstd::prelude::*;
use crate::census::{
    lemma_census, lemma_count_with_cell, lemma_empty_cells_exact, lemma_full_grid,
    lemma_walls_placed, precedes,
};
use crate::error::GameError;
use crate::grid::{
    blank_grid, can_apply, can_undo, cell_score, count_before, count_of, empties_before,
    empty_cells, framed_cell, framed_grid, in_grid, mark_of, picks_fit, row_count, row_empties,
    row_score, score_before, score_of, triple_value, valid_grid, walled_grid, walls_placed,
    with_cell, Grid, MAX_SIZE, MIN_SIZE,
};
use crate::player::Player;
use crate::random::random_below;

verus! {

/// The contents of a single cell.
#[derive(Clone, Copy, Debug, PartialEq, Eq, Structural)]
pub enum Cell {
    X,
    O,
    Empty,
    Wall,
}

/// The size of the board that `Board::new` builds.
pub const BOARD_SIZE: usize = 5;

/// Where the walls stand when the game begins.
#[derive(Clone, Copy, Debug, PartialEq, Eq, Structural)]
pub enum Layout {
    /// Walls all around, empty cells in the middle: three by three of them
    /// on a board of size five.
    ThreeByThree,
    /// No walls.
    Empty,
    /// As many walls as given, on cells chosen at random.
    Random(usize),
}

impl Layout {
    /// A board of the given size can be built from this layout: the size is
    /// admissible, and random walls leave at least one cell empty.
    pub open spec fn fits(self, size: int) -> bool {
        &&& MIN_SIZE <= size <= MAX_SIZE
        &&& match self {
            Layout::Random(walls) => walls < size * size,
            _ => true,
        }
    }

    /// `g` is a grid that this layout gives at the given size. The first two
    /// layouts give one grid each. The random layout gives a blank grid on
    /// which as many walls as asked for were placed, one after the other,
    /// each on a cell that was still empty: so it holds exactly that many
    /// walls, and all its other cells are empty.
    pub open spec fn builds(self, size: int, g: Grid) -> bool {
        match self {
            Layout::ThreeByThree => g == walled_grid(size),
            Layout::Empty => g == blank_grid(size),
            Layout::Random(walls) => {
                &&& exists|picks: Seq<usize>|
                    picks.len() == walls && picks_fit(size * size, picks) && g
                        == #[trigger] walls_placed(blank_grid(size), picks)
                &&& count_of(g, Cell::Wall) == walls
                &&& count_of(g, Cell::Empty) == size * size - walls
                &&& count_of(g, Cell::X) == 0
                &&& count_of(g, Cell::O) == 0
            },
        }
    }
}

/// The board state: a square matrix of cells.
#[derive(Debug)]
pub struct Board {
    cells: Vec<Vec<Cell>>,
}

impl View for Board {
    type V = Grid;

    closed spec fn view(&self) -> Grid {
        Seq::new(self.cells@.len(), |i: int| self.cells@[i]@)
    }
}

impl Clone for Board {
    /// A copy of the board that shares nothing with it.
    fn clone(&self) -> (copy: Board)
        ensures
            copy@ == self@,
    {
        let mut cells: Vec<Vec<Cell>> = Vec::new();
        let mut i: usize = 0;
        while i < self.cells.len()
            invariant
                i <= self.cells@.len(),
                cells@.len() == i,
                forall|r: int| 0 <= r < i ==> (#[trigger] cells@[r])@ == self.cells@[r]@,
            decreases self.cells@.len() - i,
        {
            let mut row: Vec<Cell> = Vec::new();
            let mut j: usize = 0;
            while j < self.cells[i].len()
                invariant
                    i < self.cells@.len(),
                    j <= self.cells@[i as int]@.len(),
                    row@.len() == j,
                    forall|c: int| 0 <= c < j ==> #[trigger] row@[c] == self.cells@[i as int]@[c],
                decreases self.cells@[i as int]@.len() - j,
            {
                row.push(self.cells[i][j]);
                j = j + 1;
            }
            assert(row@ == self.cells@[i as int]@);
            cells.push(row);
            i = i + 1;
        }
        let copy = Board { cells };
        assert(copy@ == self@);
        copy
    }
}

impl Board {
    /// The board is a square matrix of an admissible size. Every constructor
    /// establishes this and every method keeps it.
    pub open spec fn wf(&self) -> bool {
        valid_grid(self@)
    }

    /// What the view says of the stored rows.
    proof fn rows_agree(&self)
        ensures
            self.cells@.len() == self@.len(),
            forall|i: int| 0 <= i < self@.len() ==> (#[trigger] self.cells@[i])@ == self@[i],
            self.wf() ==> forall|i: int|
                0 <= i < self@.len() ==> (#[trigger] self.cells@[i])@.len() == self@.len(),
    {
        assert forall|i: int| 0 <= i < self@.len() implies (#[trigger] self.cells@[i])@.len()
            == self@[i].len() by {}
    }

    /// Creates a board of size `BOARD_SIZE` with the walls of `layout`.
    /// See `with_size`.
    pub fn new(layout: Layout) -> (made: Result<Board, GameError>)
        ensures
            made.is_ok() <==> layout.fits(BOARD_SIZE as int),
            made matches Err(e) ==> e == GameError::InvalidLayout,
            made matches Ok(b) ==> b.wf() && b@.len() == BOARD_SIZE && layout.builds(
                BOARD_SIZE as int,
                b@,
            ),
    {
        Self::with_size(layout, BOARD_SIZE)
    }

    /// Creates a board of the given size with the walls of `layout`; all
    /// other cells are empty. A size under `MIN_SIZE` or over `MAX_SIZE` is
    /// refused, and so are random walls that would leave no cell empty.
    ///
    /// The random layout makes one draw for each wall, among the cells that
    /// are still empty, so it ends after as many draws as walls and puts the
    /// walls on different cells.
    pub fn with_size(layout: Layout, size: usize) -> (made: Result<Board, GameError>)
        ensures
            made.is_ok() <==> layout.fits(size as int),
            made matches Err(e) ==> e == GameError::InvalidLayout,
            made matches Ok(b) ==> b.wf() && b@.len() == size && layout.builds(size as int, b@),
    {
        if size < MIN_SIZE || size > MAX_SIZE {
            return Err(GameError::InvalidLayout);
        }
        match layout {
            Layout::ThreeByThree => Ok(Self::framed(size, Cell::Wall)),
            Layout::Empty => Ok(Self::framed(size, Cell::Empty)),
            Layout::Random(walls) => {
                proof {
                    lemma_position_bound(0, 0, size as int);
                }
                let total: usize = size * size;
                if walls >= total {
                    return Err(GameError::InvalidLayout);
                }
                let mut picks: Vec<usize> = Vec::new();
                let mut k: usize = 0;
                while k < walls
                    invariant
                        k <= walls < total,
                        picks@.len() == k,
                        forall|l: int| 0 <= l < k ==> (#[trigger] picks@[l]) + l < total,
                    decreases walls - k,
                {
                    let pick: usize = random_below(total - k);
                    picks.push(pick);
                    k = k + 1;
                }
                proof {
                    lemma_walls_placed(size as int, picks@);
                }
                Self::with_walls(size, &picks)
            },
        }
    }

    /// Creates a board of the given size and places one wall for each pick,
    /// in order: a pick `p` turns the empty cell number `p`, counted in
    /// row-major order from `0` among the cells still empty, into a wall.
    /// Picks that do not fit are refused: each must name a cell that is
    /// still empty, and one cell at least must stay empty.
    pub fn with_walls(size: usize, picks: &Vec<usize>) -> (made: Result<Board, GameError>)
        ensures
            made.is_ok() <==> MIN_SIZE <= size <= MAX_SIZE && picks_fit(size * size, picks@),
            made matches Err(e) ==> e == GameError::InvalidLayout,
            made matches Ok(b) ==> b.wf() && b@ == walls_placed(blank_grid(size as int), picks@),
    {
        if size < MIN_SIZE || size > MAX_SIZE {
            return Err(GameError::InvalidLayout);
        }
        proof {
            lemma_position_bound(0, 0, size as int);
        }
        let total: usize = size * size;
        if picks.len() >= total {
            return Err(GameError::InvalidLayout);
        }
        let mut board: Board = Self::framed(size, Cell::Empty);
        let mut k: usize = 0;
        while k < picks.len()
            invariant
                MIN_SIZE <= size <= MAX_SIZE,
                total == size * size,
                k <= picks@.len() < total,
                forall|l: int| 0 <= l < k ==> (#[trigger] picks@[l]) + l < total,
                board.wf(),
                board@ == walls_placed(blank_grid(size as int), picks@.take(k as int)),
            decreases picks@.len() - k,
        {
            let ghost before: Grid = board@;
            proof {
                assert(picks_fit(total as int, picks@.take(k as int)));
                lemma_walls_placed(size as int, picks@.take(k as int));
                lemma_census(before);
                lemma_empty_cells_exact(before);
            }
            let open: Vec<(usize, usize)> = board.moves();
            let pick: usize = picks[k];
            if pick >= open.len() {
                return Err(GameError::InvalidLayout);
            }
            let target: (usize, usize) = open[pick];
            board.set(target.0, target.1, Cell::Wall);
            proof {
                lemma_count_with_cell(before, target.0 as int, target.1 as int, Cell::Wall, Cell::Wall);
                let upto = picks@.take(k + 1);
                assert(upto.drop_last() == picks@.take(k as int));
                assert(upto.last() == pick);
            }
            k = k + 1;
        }
        proof {
            assert(picks@.take(k as int) == picks@);
        }
        Ok(board)
    }

    /// A board of the given size whose outermost rows and columns hold
    /// `frame` and whose interior is empty.
    fn framed(size: usize, frame: Cell) -> (b: Board)
        requires
            MIN_SIZE <= size <= MAX_SIZE,
        ensures
            b.wf(),
            b@ == framed_grid(size as int, frame),
    {
        let mut cells: Vec<Vec<Cell>> = Vec::new();
        let mut i: usize = 0;
        while i < size
            invariant
                MIN_SIZE <= size <= MAX_SIZE,
                i <= size,
                cells@.len() == i,
                forall|r: int|
                    0 <= r < i ==> (#[trigger] cells@[r])@ == framed_grid(size as int, frame)[r],
            decreases size - i,
        {
            let mut row: Vec<Cell> = Vec::new();
            let mut j: usize = 0;
            while j < size
                invariant
                    MIN_SIZE <= size <= MAX_SIZE,
                    i < size,
                    j <= size,
                    row@.len() == j,
                    forall|c: int|
                        0 <= c < j ==> #[trigger] row@[c] == framed_cell(
                            size as int,
                            i as int,
                            c,
                            frame,
                        ),
                decreases size - j,
            {
                let cell: Cell = if i == 0 || j == 0 || i == size - 1 || j == size - 1 {
                    frame
                } else {
                    Cell::Empty
                };
                row.push(cell);
                j = j + 1;
            }
            assert(row@ == framed_grid(size as int, frame)[i as int]);
            cells.push(row);
            i = i + 1;
        }
        let b = Board { cells };
        assert(b@ == framed_grid(size as int, frame));
        b
    }

    /// Replaces the cell `(i, j)`.
    fn set(&mut self, i: usize, j: usize, cell: Cell)
        requires
            old(self).wf(),
            in_grid(old(self)@, i as int, j as int),
        ensures
            final(self).wf(),
            final(self)@ == with_cell(old(self)@, i as int, j as int, cell),
    {
        proof {
            self.rows_agree();
        }
        self.cells[i][j] = cell;
        proof {
            self.rows_agree();
            assert(self@ == with_cell(old(self)@, i as int, j as int, cell));
        }
    }

    /// The number of rows, which is the number of columns.
    pub fn size(&self) -> (n: usize)
        ensures
            n == self@.len(),
    {
        self.cells.len()
    }

    /// How many cells hold `kind`.
    pub fn count(&self, kind: Cell) -> (found: usize)
        requires
            self.wf(),
        ensures
            found == count_of(self@, kind),
            found <= self@.len() * self@.len(),
    {
        proof {
            self.rows_agree();
        }
        let n: usize = self.cells.len();
        let mut found: usize = 0;
        let mut i: usize = 0;
        while i < n
            invariant
                self.wf(),
                n == self@.len(),
                i <= n,
                found == count_before(self@, kind, i as int),
                found <= i * n,
            decreases n - i,
        {
            let ghost above: int = found as int;
            let mut j: usize = 0;
            while j < n
                invariant
                    self.wf(),
                    n == self@.len(),
                    i < n,
                    j <= n,
                    above == count_before(self@, kind, i as int),
                    above <= i * n,
                    found == above + row_count(self@[i as int], kind, j as int),
                    found <= above + j,
                decreases n - j,
            {
                proof {
                    self.rows_agree();
                    lemma_position_bound(i as int, j as int, n as int);
                }
                if self.cells[i][j] == kind {
                    found = found + 1;
                }
                j = j + 1;
            }
            proof {
                assert(i * n + n == (i + 1) * n) by (nonlinear_arith);
                assert((i + 1) * n <= n * n) by (nonlinear_arith)
                    requires
                        i + 1 <= n,
                ;
            }
            i = i + 1;
        }
        found
    }

    /// Read access to the cells, row by row.
    pub fn get_cells(&self) -> (cells: &Vec<Vec<Cell>>)
        ensures
            cells@.len() == self@.len(),
            forall|i: int| 0 <= i < self@.len() ==> (#[trigger] cells@[i])@ == self@[i],
    {
        proof {
            self.rows_agree();
        }
        &self.cells
    }

    /// The coordinates of the empty cells, by ascending row and, within a
    /// row, by ascending column.
    pub fn moves(&self) -> (list: Vec<(usize, usize)>)
        requires
            self.wf(),
        ensures
            list@ == empty_cells(self@),
            forall|k: int|
                0 <= k < list@.len() ==> can_apply(
                    self@,
                    (#[trigger] list@[k]).0 as int,
                    list@[k].1 as int,
                ),
            forall|k: int, l: int|
                0 <= k < l < list@.len() ==> precedes(#[trigger] list@[k], #[trigger] list@[l]),
            forall|r: int, c: int|
                can_apply(self@, r, c) ==> list@.contains((r as usize, c as usize)),
            list@.len() + count_of(self@, Cell::X) + count_of(self@, Cell::O) + count_of(
                self@,
                Cell::Wall,
            ) == self@.len() * self@.len(),
    {
        proof {
            self.rows_agree();
            lemma_census(self@);
            lemma_empty_cells_exact(self@);
            assert forall|r: int, c: int| can_apply(self@, r, c) implies empty_cells(
                self@,
            ).contains((r as usize, c as usize)) by {
                assert(self@[r][c] == Cell::Empty);
            }
        }
        let n: usize = self.cells.len();
        let mut list: Vec<(usize, usize)> = Vec::new();
        let mut i: usize = 0;
        while i < n
            invariant
                self.wf(),
                n == self@.len(),
                i <= n,
                list@ == empties_before(self@, i as int),
            decreases n - i,
        {
            let ghost above: Seq<(usize, usize)> = list@;
            let mut j: usize = 0;
            while j < n
                invariant
                    self.wf(),
                    n == self@.len(),
                    i < n,
                    j <= n,
                    above == empties_before(self@, i as int),
                    list@ == above + row_empties(self@, i as int, j as int),
                decreases n - j,
            {
                proof {
                    self.rows_agree();
                }
                if self.cells[i][j] == Cell::Empty {
                    list.push((i, j));
                }
                assert(list@ == above + row_empties(self@, i as int, j + 1));
                j = j + 1;
            }
            i = i + 1;
        }
        list
    }

    /// Whether the game has ended: it ends when no cell is empty.
    pub fn game_over(&self) -> (over: bool)
        requires
            self.wf(),
        ensures
            over == (empty_cells(self@).len() == 0),
            over == (forall|r: int, c: int|
                in_grid(self@, r, c) ==> #[trigger] self@[r][c] != Cell::Empty),
    {
        proof {
            lemma_full_grid(self@);
        }
        self.moves().len() == 0
    }

    /// Puts the player's mark on the cell `m`, which must be empty.
    pub fn apply_move(&mut self, m: (usize, usize), player: Player)
        requires
            old(self).wf(),
            can_apply(old(self)@, m.0 as int, m.1 as int),
        ensures
            final(self).wf(),
            final(self)@ == with_cell(old(self)@, m.0 as int, m.1 as int, mark_of(player)),
    {
        let mark: Cell = match player {
            Player::X => Cell::X,
            Player::O => Cell::O,
        };
        self.set(m.0, m.1, mark);
    }

    /// Takes the player's mark off the cell `m`, which must hold it; the
    /// cell is empty again.
    pub fn undo_move(&mut self, m: (usize, usize), player: Player)
        requires
            old(self).wf(),
            can_undo(old(self)@, m.0 as int, m.1 as int, player),
        ensures
            final(self).wf(),
            final(self)@ == with_cell(old(self)@, m.0 as int, m.1 as int, Cell::Empty),
    {
        self.set(m.0, m.1, Cell::Empty);
    }

    /// Whether `m` names an empty cell of the board.
    pub fn is_open(&self, m: (usize, usize)) -> (open: bool)
        requires
            self.wf(),
        ensures
            open == can_apply(self@, m.0 as int, m.1 as int),
    {
        proof {
            self.rows_agree();
        }
        let n: usize = self.cells.len();
        m.0 < n && m.1 < n && self.cells[m.0][m.1] == Cell::Empty
    }

    /// Whether `m` names a cell of the board that holds the player's mark.
    pub fn holds_mark(&self, m: (usize, usize), player: Player) -> (held: bool)
        requires
            self.wf(),
        ensures
            held == can_undo(self@, m.0 as int, m.1 as int, player),
    {
        proof {
            self.rows_agree();
        }
        let n: usize = self.cells.len();
        let mark: Cell = match player {
            Player::X => Cell::X,
            Player::O => Cell::O,
        };
        m.0 < n && m.1 < n && self.cells[m.0][m.1] == mark
    }

    /// Applies the move if it is legal and reports `IllegalMove` otherwise,
    /// leaving the board as it was.
    pub fn try_apply_move(&mut self, m: (usize, usize), player: Player) -> (done: Result<
        (),
        GameError,
    >)
        requires
            old(self).wf(),
        ensures
            final(self).wf(),
            done.is_ok() <==> can_apply(old(self)@, m.0 as int, m.1 as int),
            done is Ok ==> final(self)@ == with_cell(
                old(self)@,
                m.0 as int,
                m.1 as int,
                mark_of(player),
            ),
            done is Err ==> final(self)@ == old(self)@,
            done matches Err(e) ==> e == GameError::IllegalMove,
    {
        if self.is_open(m) {
            self.apply_move(m, player);
            Ok(())
        } else {
            Err(GameError::IllegalMove)
        }
    }

    /// Retracts the move if the cell holds the player's mark and reports
    /// `IllegalUndo` otherwise, leaving the board as it was.
    pub fn try_undo_move(&mut self, m: (usize, usize), player: Player) -> (done: Result<
        (),
        GameError,
    >)
        requires
            old(self).wf(),
        ensures
            final(self).wf(),
            done.is_ok() <==> can_undo(old(self)@, m.0 as int, m.1 as int, player),
            done is Ok ==> final(self)@ == with_cell(old(self)@, m.0 as int, m.1 as int, Cell::Empty),
            done is Err ==> final(self)@ == old(self)@,
            done matches Err(e) ==> e == GameError::IllegalUndo,
    {
        if self.holds_mark(m, player) {
            self.undo_move(m, player);
            Ok(())
        } else {
            Err(GameError::IllegalUndo)
        }
    }

    /// The score: the sum, over every run of three cells in a row, a column
    /// or a diagonal, of `1` where `X` holds the run and `-1` where `O` does.
    pub fn score(&self) -> (score: i32)
        requires
            self.wf(),
        ensures
            score == score_of(self@),
    {
        proof {
            self.rows_agree();
        }
        let n: usize = self.cells.len();
        let mut score: i32 = 0;
        let mut i: usize = 0;
        while i < n
            invariant
                self.wf(),
                n == self@.len(),
                i <= n,
                score == score_before(self@, i as int),
            decreases n - i,
        {
            let mut j: usize = 0;
            let ghost base: int = score as int;
            while j < n
                invariant
                    self.wf(),
                    n == self@.len(),
                    i < n,
                    j <= n,
                    base == score_before(self@, i as int),
                    score == base + row_score(self@, i as int, j as int),
                decreases n - j,
            {
                proof {
                    lemma_position_bound(i as int, j as int, n as int);
                    lemma_score_before_bound(self@, i as int);
                    lemma_row_score_bound(self@, i as int, j as int);
                }
                let runs: i32 = self.cell_runs(i, j);
                assert(-4 * (n * n) + 4 <= score <= 4 * (n * n) - 4);
                score = score + runs;
                j = j + 1;
            }
            i = i + 1;
        }
        score
    }

    /// The worth of the four runs that start at `(i, j)`.
    fn cell_runs(&self, i: usize, j: usize) -> (v: i32)
        requires
            self.wf(),
            i < self@.len(),
            j < self@.len(),
        ensures
            v == cell_score(self@, i as int, j as int),
            -4 <= v <= 4,
    {
        proof {
            self.rows_agree();
        }
        let n: usize = self.cells.len();
        let here: Cell = self.cells[i][j];
        let mut v: i32 = 0;
        if j + 2 < n {
            v = v + Self::triple(here, self.cells[i][j + 1], self.cells[i][j + 2]);
        }
        if i + 2 < n {
            v = v + Self::triple(here, self.cells[i + 1][j], self.cells[i + 2][j]);
        }
        if i + 2 < n && j + 2 < n {
            v = v + Self::triple(here, self.cells[i + 1][j + 1], self.cells[i + 2][j + 2]);
        }
        if i + 2 < n && j >= 2 {
            v = v + Self::triple(here, self.cells[i + 1][j - 1], self.cells[i + 2][j - 2]);
        }
        v
    }

    /// The worth of one run of three cells.
    fn triple(a: Cell, b: Cell, c: Cell) -> (v: i32)
        ensures
            v == triple_value(a, b, c),
    {
        match (a, b, c) {
            (Cell::X, Cell::X, Cell::X) => 1,
            (Cell::O, Cell::O, Cell::O) => -1,
            _ => 0,
        }
    }
}

/// The runs that start in the first `j` cells of a row are worth between
/// `-4 * j` and `4 * j`.
pub proof fn lemma_row_score_bound(g: Grid, i: int, j: int)
    requires
        0 <= j,
    ensures
        -4 * j <= row_score(g, i, j) <= 4 * j,
    decreases j,
{
    if j > 0 {
        lemma_row_score_bound(g, i, j - 1);
    }
}

/// The runs that start in the first `i` rows are worth between
/// `-4 * i * n` and `4 * i * n`, where `n` is the size of the grid.
pub proof fn lemma_score_before_bound(g: Grid, i: int)
    requires
        0 <= i,
    ensures
        -4 * (i * g.len()) <= score_before(g, i) <= 4 * (i * g.len()),
    decreases i,
{
    if i > 0 {
        lemma_score_before_bound(g, i - 1);
        lemma_row_score_bound(g, i - 1, g.len() as int);
        assert((i - 1) * g.len() + g.len() == i * g.len()) by (nonlinear_arith);
    }
}

/// A position `(i, j)` inside a board of size `n` has fewer than `n * n`
/// positions before it, and four runs for each of these fit in an `i32`.
pub proof fn lemma_position_bound(i: int, j: int, n: int)
    requires
        0 <= i < n,
        0 <= j < n,
        n <= MAX_SIZE,
    ensures
        0 <= i * n + j < n * n,
        4 * (n * n) <= i32::MAX,
{
    assert(i * n + j < n * n) by (nonlinear_arith)
        requires
            0 <= i < n,
            0 <= j < n,
    ;
    assert(0 <= i * n + j) by (nonlinear_arith)
        requires
            0 <= i < n,
            0 <= j < n,
    ;
    assert(4 * (n * n) <= 2147483647) by (nonlinear_arith)
        requires
            0 <= n <= 23170,
    ;
}

} // verus!
