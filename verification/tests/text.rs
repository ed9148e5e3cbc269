use tictactoe::board::{Board, Cell, Layout};
use tictactoe::color::{Color, Fg};
use tictactoe::paint::Palette;
use tictactoe::player::Player;

#[test]
fn plain_colors_are_empty() {
    for color in [Color::Yellow, Color::Green, Color::Red, Color::Blue, Color::Reset] {
        assert_eq!(Fg(color), "");
    }
    let plain = Palette::plain();
    assert_eq!(plain.x, "");
    assert_eq!(plain.o, "");
    assert_eq!(plain.wall, "");
    assert_eq!(plain.reset, "");
}

#[test]
fn terminal_palette_holds_escape_sequences_or_nothing() {
    let palette = Palette::terminal();
    assert!(palette.x == "\x1b[38;5;2m" || palette.x.is_empty());
    assert!(palette.o == "\x1b[38;5;4m" || palette.o.is_empty());
    assert!(palette.wall == "\x1b[38;5;1m" || palette.wall.is_empty());
    assert_eq!(palette.reset, "\x1b[39m");
}

#[test]
fn cell_symbols() {
    assert_eq!(Cell::X.symbol(), "X");
    assert_eq!(Cell::O.symbol(), "O");
    assert_eq!(Cell::Empty.symbol(), " ");
    assert_eq!(Cell::Wall.symbol(), "W");
}

#[test]
fn cells_in_plain_text() {
    let plain = Palette::plain();
    assert_eq!(Cell::X.painted(&plain), "X");
    assert_eq!(Cell::O.painted(&plain), "O");
    assert_eq!(Cell::Empty.painted(&plain), " ");
    assert_eq!(Cell::Wall.painted(&plain), "W");
}

#[test]
fn cells_in_given_colors() {
    let palette = Palette {
        x: String::from("<g>"),
        o: String::from("<b>"),
        wall: String::from("<r>"),
        reset: String::from("</>"),
    };
    assert_eq!(Cell::X.painted(&palette), "<g>X</>");
    assert_eq!(Cell::O.painted(&palette), "<b>O</>");
    assert_eq!(Cell::Empty.painted(&palette), " ");
    assert_eq!(Cell::Wall.painted(&palette), "<r>W</>");
}

#[test]
fn cells_in_terminal_colors() {
    let x = Cell::X.to_string();
    assert!(x == "\x1b[38;5;2mX\x1b[39m" || x == "X\x1b[39m");
    let o = Cell::O.to_string();
    assert!(o == "\x1b[38;5;4mO\x1b[39m" || o == "O\x1b[39m");
    let wall = Cell::Wall.to_string();
    assert!(wall == "\x1b[38;5;1mW\x1b[39m" || wall == "W\x1b[39m");
    assert_eq!(Cell::Empty.to_string(), " ");
}

#[test]
fn board_in_plain_text() {
    let mut board = Board::new(Layout::ThreeByThree).unwrap();
    board.apply_move((1, 1), Player::X);
    board.apply_move((2, 3), Player::O);
    assert_eq!(
        board.render(&Palette::plain()),
        vec![
            "-----------",
            "  W | W | W | W | W",
            "  W | X |   |   | W",
            "  W |   |   | O | W",
            "  W |   |   |   | W",
            "  W | W | W | W | W",
            "-----------",
        ]
    );
}

#[test]
fn board_in_given_colors() {
    let palette = Palette {
        x: String::from("x:"),
        o: String::from("o:"),
        wall: String::from("#"),
        reset: String::from(";"),
    };
    let mut board = Board::with_size(Layout::ThreeByThree, 3).unwrap();
    board.apply_move((1, 1), Player::O);
    assert_eq!(
        board.render(&palette),
        vec![
            "-----------",
            "  #W; | #W; | #W;",
            "  #W; | o:O; | #W;",
            "  #W; | #W; | #W;",
            "-----------",
        ]
    );
}
