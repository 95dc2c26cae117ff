//! What a square of the board looks like when it is drawn.

use vstd::prelude::*;
use crate::board::{EMPTY, PIECE_ICON, RED_PIECE};

verus! {

/// The color in which a square is drawn.
#[derive(Clone, Copy, Debug, PartialEq, Eq)]
pub enum Tint {
    /// The terminal's own color.
    Plain,
    /// Red, for the first player's pieces.
    Red,
    /// Yellow, for the second player's pieces.
    Yellow,
}

/// The glyph and the color that stand for a square: an empty square shows
/// as it is, in the terminal's own color; a piece shows as the piece icon,
/// red for a red piece and yellow for any other.
pub open spec fn looks_of(piece: char) -> (char, Tint) {
    if piece == EMPTY {
        (EMPTY, Tint::Plain)
    } else if piece == RED_PIECE {
        (PIECE_ICON, Tint::Red)
    } else {
        (PIECE_ICON, Tint::Yellow)
    }
}

/// Tells with which glyph and in which color a square is drawn.
pub fn square_looks(piece: char) -> (looks: (char, Tint))
    ensures
        looks == looks_of(piece),
{
    if piece == EMPTY {
        (EMPTY, Tint::Plain)
    } else if piece == RED_PIECE {
        (PIECE_ICON, Tint::Red)
    } else {
        (PIECE_ICON, Tint::Yellow)
    }
}

} // verus!
