//! What a player may enter: a column letter from A to G, and a search
//! depth from 1 to 9.

use vstd::prelude::*;
use vstd::string::*;
use crate::board::{column_open, is_column_open, BOARD_SIZE};

verus! {

/// The least search depth on offer.
pub const MIN_DEPTH: u16 = 1;

/// The greatest search depth on offer.
pub const MAX_DEPTH: u16 = 9;

/// The letter of the first column.
pub const FIRST_LETTER: char = 'A';

/// The letter of the last column.
pub const LAST_LETTER: char = 'G';

/// The response is a single letter from A to G that names an open column.
pub open spec fn names_open_column(resp: Seq<char>, cells: Seq<char>) -> bool {
    &&& resp.len() == 1
    &&& FIRST_LETTER <= resp[0] <= LAST_LETTER
    &&& column_open(cells, resp[0] as int - FIRST_LETTER as int)
}

/// Converts a column letter into the index of its column: A is column 0.
pub fn letter_to_col(col: char) -> (index: usize)
    requires
        FIRST_LETTER <= col,
    ensures
        index == col as int - FIRST_LETTER as int,
{
    col as usize - FIRST_LETTER as usize
}

/// Checks if a player's response names a column into which a piece can be
/// dropped.
pub fn user_response_valid(resp: &String, playing_board: &[char; BOARD_SIZE]) -> (valid: bool)
    ensures
        valid == names_open_column(resp@, playing_board@),
{
    let text: &str = resp.as_str();
    if text.unicode_len() != 1 {
        return false;
    }
    let letter: char = text.get_char(0);
    if letter < FIRST_LETTER || letter > LAST_LETTER {
        return false;
    }
    is_column_open(playing_board, letter_to_col(letter))
}

/// Checks if a search depth is one of those on offer.
pub fn is_valid_depth(depth: u16) -> (valid: bool)
    ensures
        valid == (MIN_DEPTH <= depth <= MAX_DEPTH),
{
    depth >= MIN_DEPTH && depth <= MAX_DEPTH
}

} // verus!
