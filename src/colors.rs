use vstd::prelude::*;

verus! {

/// The colours that the game's logic gives to glyphs and messages.
#[derive(Debug, Clone, Copy, PartialEq, Eq, Structural)]
pub enum Color {
    Black,
    White,
    Red,
    Green,
    Blue,
    Yellow,
}

} // verus!
