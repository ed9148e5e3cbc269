//! The text of cells and boards, plain or with the terminal's colors.

use vstd::prelude::*;
use crate::board::{Board, Cell};
use crate::color::{Color, Fg};

verus! {

/// The escape sequence that switches the foreground to green.
pub open spec fn green_code() -> Seq<char> {
    "\x1b[38;5;2m"@
}

/// The escape sequence that switches the foreground to blue.
pub open spec fn blue_code() -> Seq<char> {
    "\x1b[38;5;4m"@
}

/// The escape sequence that switches the foreground to red.
pub open spec fn red_code() -> Seq<char> {
    "\x1b[38;5;1m"@
}

/// The escape sequence that switches the foreground back to its default.
pub open spec fn reset_code() -> Seq<char> {
    "\x1b[39m"@
}

/// What `termion::color::Fg(termion::color::Green)` displays as: the escape
/// sequence for a green foreground, or nothing where termion finds colors
/// switched off by the `NO_COLOR` variable.
#[verifier::external_body]
fn fg_green() -> (code: String)
    ensures
        code@ == green_code() || code@ == Seq::<char>::empty(),
{
    format!("{}", termion::color::Fg(termion::color::Green))
}

/// What `termion::color::Fg(termion::color::Blue)` displays as: the escape
/// sequence for a blue foreground, or nothing where termion finds colors
/// switched off by the `NO_COLOR` variable.
#[verifier::external_body]
fn fg_blue() -> (code: String)
    ensures
        code@ == blue_code() || code@ == Seq::<char>::empty(),
{
    format!("{}", termion::color::Fg(termion::color::Blue))
}

/// What `termion::color::Fg(termion::color::Red)` displays as: the escape
/// sequence for a red foreground, or nothing where termion finds colors
/// switched off by the `NO_COLOR` variable.
#[verifier::external_body]
fn fg_red() -> (code: String)
    ensures
        code@ == red_code() || code@ == Seq::<char>::empty(),
{
    format!("{}", termion::color::Fg(termion::color::Red))
}

/// What `termion::color::Fg(termion::color::Reset)` displays as: the escape
/// sequence for the default foreground, whether colors are switched off or
/// not.
#[verifier::external_body]
fn fg_reset() -> (code: String)
    ensures
        code@ == reset_code(),
{
    format!("{}", termion::color::Fg(termion::color::Reset))
}

/// The texts that switch the foreground color: one for each kind of cell
/// that is shown in color, and one that ends the color.
#[derive(Debug)]
pub struct Palette {
    pub x: String,
    pub o: String,
    pub wall: String,
    pub reset: String,
}

impl Palette {
    /// A palette without colors: none of its texts holds a character.
    pub open spec fn is_plain(&self) -> bool {
        &&& self.x@ == Seq::<char>::empty()
        &&& self.o@ == Seq::<char>::empty()
        &&& self.wall@ == Seq::<char>::empty()
        &&& self.reset@ == Seq::<char>::empty()
    }

    /// A palette of the terminal: green for `X`, blue for `O` and red for
    /// walls, each of them possibly switched off, and the sequence that
    /// returns to the default color.
    pub open spec fn is_terminal(&self) -> bool {
        &&& self.x@ == green_code() || self.x@ == Seq::<char>::empty()
        &&& self.o@ == blue_code() || self.o@ == Seq::<char>::empty()
        &&& self.wall@ == red_code() || self.wall@ == Seq::<char>::empty()
        &&& self.reset@ == reset_code()
    }

    /// The palette that leaves cells uncolored.
    pub fn plain() -> (palette: Palette)
        ensures
            palette.is_plain(),
    {
        Palette {
            x: String::from_str(Fg(Color::Green)),
            o: String::from_str(Fg(Color::Blue)),
            wall: String::from_str(Fg(Color::Red)),
            reset: String::from_str(Fg(Color::Reset)),
        }
    }

    /// The palette of the terminal, as termion gives it to this process.
    pub fn terminal() -> (palette: Palette)
        ensures
            palette.is_terminal(),
    {
        Palette { x: fg_green(), o: fg_blue(), wall: fg_red(), reset: fg_reset() }
    }
}

/// The letter that stands for a cell.
pub open spec fn symbol_of(cell: Cell) -> Seq<char> {
    match cell {
        Cell::X => "X"@,
        Cell::O => "O"@,
        Cell::Empty => " "@,
        Cell::Wall => "W"@,
    }
}

/// The text of a cell: its letter, between the text that switches its color
/// on and the text that switches it off. An empty cell is a blank without
/// color.
pub open spec fn cell_text(cell: Cell, x: Seq<char>, o: Seq<char>, wall: Seq<char>, reset: Seq<char>) -> Seq<
    char,
> {
    match cell {
        Cell::X => x + symbol_of(cell) + reset,
        Cell::O => o + symbol_of(cell) + reset,
        Cell::Empty => symbol_of(cell),
        Cell::Wall => wall + symbol_of(cell) + reset,
    }
}

/// The first `j` cells of a row as text: two blanks, then the cells with a
/// bar between neighbors.
pub open spec fn row_text(
    row: Seq<Cell>,
    j: int,
    x: Seq<char>,
    o: Seq<char>,
    wall: Seq<char>,
    reset: Seq<char>,
) -> Seq<char>
    decreases j,
{
    if j <= 0 {
        "  "@
    } else if j == 1 {
        "  "@ + cell_text(row[0], x, o, wall, reset)
    } else {
        row_text(row, j - 1, x, o, wall, reset) + " | "@ + cell_text(row[j - 1], x, o, wall, reset)
    }
}

/// The line that is drawn above and below the board.
pub open spec fn rule_text() -> Seq<char> {
    "-----------"@
}

impl Cell {
    /// The letter that stands for this cell.
    pub fn symbol(&self) -> (letter: &'static str)
        ensures
            letter@ == symbol_of(*self),
    {
        match self {
            Cell::X => "X",
            Cell::O => "O",
            Cell::Empty => " ",
            Cell::Wall => "W",
        }
    }

    /// The text of this cell in the colors of `palette`.
    pub fn painted(&self, palette: &Palette) -> (text: String)
        ensures
            text@ == cell_text(*self, palette.x@, palette.o@, palette.wall@, palette.reset@),
    {
        let on: &str = match self {
            Cell::X => palette.x.as_str(),
            Cell::O => palette.o.as_str(),
            Cell::Empty => return String::from_str(self.symbol()),
            Cell::Wall => palette.wall.as_str(),
        };
        let mut text: String = String::from_str(on);
        text.append(self.symbol());
        text.append(palette.reset.as_str());
        text
    }

    /// The text of this cell in the terminal's colors: green for `X`, blue
    /// for `O`, red for a wall, and back to the default color after the
    /// letter. Where the `NO_COLOR` variable switches colors off the letter stands
    /// without the color before it.
    pub fn to_string(&self) -> (text: String)
        ensures
            text@ == cell_text(*self, green_code(), blue_code(), red_code(), reset_code()) || text@
                == cell_text(
                *self,
                Seq::<char>::empty(),
                Seq::<char>::empty(),
                Seq::<char>::empty(),
                reset_code(),
            ),
    {
        let palette: Palette = Palette::terminal();
        self.painted(&palette)
    }
}

impl Board {
    /// The board as lines of text in the colors of `palette`: a rule, one
    /// line for each row, and a rule again.
    pub fn render(&self, palette: &Palette) -> (lines: Vec<String>)
        requires
            self.wf(),
        ensures
            lines@.len() == self@.len() + 2,
            lines@[0]@ == rule_text(),
            lines@[self@.len() as int + 1]@ == rule_text(),
            forall|k: int|
                1 <= k <= self@.len() ==> (#[trigger] lines@[k])@ == row_text(
                    self@[k - 1],
                    self@.len() as int,
                    palette.x@,
                    palette.o@,
                    palette.wall@,
                    palette.reset@,
                ),
    {
        let cells: &Vec<Vec<Cell>> = self.get_cells();
        let n: usize = cells.len();
        let mut lines: Vec<String> = Vec::new();
        lines.push(String::from_str("-----------"));
        let mut i: usize = 0;
        while i < n
            invariant
                self.wf(),
                n == self@.len(),
                cells@.len() == n,
                forall|r: int| 0 <= r < n ==> (#[trigger] cells@[r])@ == self@[r],
                i <= n,
                lines@.len() == i + 1,
                lines@[0]@ == rule_text(),
                forall|k: int|
                    1 <= k <= i ==> (#[trigger] lines@[k])@ == row_text(
                        self@[k - 1],
                        n as int,
                        palette.x@,
                        palette.o@,
                        palette.wall@,
                        palette.reset@,
                    ),
            decreases n - i,
        {
            let row: &Vec<Cell> = &cells[i];
            assert(row@ == self@[i as int]);
            let mut line: String = String::from_str("  ");
            let mut j: usize = 0;
            while j < n
                invariant
                    row@.len() == n,
                    j <= n,
                    line@ == row_text(
                        row@,
                        j as int,
                        palette.x@,
                        palette.o@,
                        palette.wall@,
                        palette.reset@,
                    ),
                decreases n - j,
            {
                if j > 0 {
                    line.append(" | ");
                }
                let text: String = row[j].painted(palette);
                line.append(text.as_str());
                j = j + 1;
            }
            lines.push(line);
            i = i + 1;
        }
        lines.push(String::from_str("-----------"));
        lines
    }
}

} // verus!
