//! How a game ends: the outcome of a turn, and the draw.

use vstd::prelude::*;
use crate::ai_opponent::is_terminal_node;
use crate::board::{board_full, get_open_columns, BOARD_SIZE, RED_PIECE, YELLOW_PIECE};
use crate::lines::{has_four, is_winning_board};

verus! {

/// What a move has led to.
#[derive(Clone, Copy, Debug, PartialEq, Eq)]
pub enum TurnOutcome {
    /// The side that moved has four in a row.
    Win,
    /// Nobody won by the move and the board is full.
    Tie,
    /// The game goes on with the other side.
    Continue,
}

/// The outcome of a turn in which `piece` was dropped: a win counts
/// before a full board.
pub open spec fn outcome_of(cells: Seq<char>, piece: char) -> TurnOutcome {
    if has_four(cells, piece) {
        TurnOutcome::Win
    } else if board_full(cells) {
        TurnOutcome::Tie
    } else {
        TurnOutcome::Continue
    }
}

/// Tells what the move of the side that plays `piece` has led to.
pub fn outcome_after_move(playing_board: &[char; BOARD_SIZE], piece: char) -> (outcome:
    TurnOutcome)
    ensures
        outcome == outcome_of(playing_board@, piece),
{
    if is_winning_board(playing_board, piece) {
        TurnOutcome::Win
    } else if get_open_columns(playing_board).len() == 0 {
        TurnOutcome::Tie
    } else {
        TurnOutcome::Continue
    }
}

/// Checks if the game has ended in a draw: no more moves are available and
/// nobody has won.
pub fn is_draw(playing_board: &[char; BOARD_SIZE]) -> (draw: bool)
    ensures
        draw == (board_full(playing_board@) && !has_four(playing_board@, RED_PIECE) && !has_four(
            playing_board@,
            YELLOW_PIECE,
        )),
{
    let flags: (bool, bool, bool) = is_terminal_node(playing_board);
    flags.2 && !flags.0 && !flags.1
}

} // verus!
