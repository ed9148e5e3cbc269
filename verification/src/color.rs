//! Colors that leave no trace in the text, for terminals that take no
//! escape sequences.

use vstd::prelude::*;

verus! {

/// A color of the terminal's text.
#[derive(Clone, Copy, Debug, PartialEq, Eq, Structural)]
pub enum Color {
    Yellow,
    Green,
    Red,
    Blue,
    Reset,
}

/// The text that switches the foreground to a color: none at all, whatever
/// the color.
#[allow(non_snake_case)]
pub fn Fg(color: Color) -> (code: &'static str)
    ensures
        code@ == Seq::<char>::empty(),
{
    proof {
        reveal_strlit("");
    }
    let code: &'static str = "";
    assert(code@ =~= Seq::<char>::empty());
    code
}

} // verus!
