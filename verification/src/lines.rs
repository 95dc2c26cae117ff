//! Windows: runs of four cells in a straight line, along a row, a column or
//! one of the two diagonals. A window is named by its axis and by the cell
//! it starts from; it runs from there to the right (along a row or a
//! diagonal) or downwards (along a column).

use vstd::prelude::*;
use crate::board::{cell_index, get_piece_at, piece_at, BOARD_HEIGHT, BOARD_SIZE, BOARD_WIDTH};

verus! {

/// Number of cells in a window.
pub const WINDOW_LENGTH: usize = 4;

/// The four directions in which cells line up.
#[derive(Clone, Copy, Debug)]
pub enum Axis {
    /// Along a row, left to right.
    Horizontal,
    /// Along a column, top to bottom.
    Vertical,
    /// Along a diagonal that descends to the right.
    Falling,
    /// Along a diagonal that ascends to the right.
    Rising,
}

/// Column `x`, row `y` names a cell of the board.
pub open spec fn on_board(x: int, y: int) -> bool {
    0 <= x < BOARD_WIDTH && 0 <= y < BOARD_HEIGHT
}

/// Column of the cell `i` steps along `axis` from column `x`.
pub open spec fn window_x(axis: Axis, x: int, i: int) -> int {
    match axis {
        Axis::Vertical => x,
        _ => x + i,
    }
}

/// Row of the cell `i` steps along `axis` from row `y`.
pub open spec fn window_y(axis: Axis, y: int, i: int) -> int {
    match axis {
        Axis::Horizontal => y,
        Axis::Rising => y - i,
        _ => y + i,
    }
}

/// The four cells that start at column `x`, row `y` and run along `axis`
/// all lie on the board.
pub open spec fn is_window(axis: Axis, x: int, y: int) -> bool {
    on_board(x, y) && on_board(window_x(axis, x, 3), window_y(axis, y, 3))
}

/// The piece on the `i`-th cell of a window.
pub open spec fn window_piece(cells: Seq<char>, axis: Axis, x: int, y: int, i: int) -> char {
    piece_at(cells, window_x(axis, x, i), window_y(axis, y, i))
}

/// The pieces on the four cells of a window, in order.
pub open spec fn window(cells: Seq<char>, axis: Axis, x: int, y: int) -> Seq<char> {
    Seq::new(WINDOW_LENGTH as nat, |i: int| window_piece(cells, axis, x, y, i))
}

/// All four cells of the window hold `piece`.
pub open spec fn window_full(cells: Seq<char>, piece: char, axis: Axis, x: int, y: int) -> bool {
    &&& window_piece(cells, axis, x, y, 0) == piece
    &&& window_piece(cells, axis, x, y, 1) == piece
    &&& window_piece(cells, axis, x, y, 2) == piece
    &&& window_piece(cells, axis, x, y, 3) == piece
}

/// Somewhere on the board four cells in a row, a column or a diagonal all
/// hold `piece`.
pub open spec fn has_four(cells: Seq<char>, piece: char) -> bool {
    exists|axis: Axis, x: int, y: int|
        #![trigger window_full(cells, piece, axis, x, y)]
        is_window(axis, x, y) && window_full(cells, piece, axis, x, y)
}

/// Every cell of a window lies on the board.
pub proof fn lemma_window_cells_on_board(axis: Axis, x: int, y: int, i: int)
    requires
        is_window(axis, x, y),
        0 <= i < WINDOW_LENGTH,
    ensures
        on_board(window_x(axis, x, i), window_y(axis, y, i)),
        0 <= cell_index(window_x(axis, x, i), window_y(axis, y, i)) < BOARD_SIZE,
{
}

/// The windows are all the runs of four cells that lie on the board: four
/// cells in a line form a window exactly if each of them is on the board.
pub proof fn lemma_windows_are_the_runs_on_the_board(axis: Axis, x: int, y: int)
    ensures
        is_window(axis, x, y) <==> (forall|i: int|
            0 <= i < WINDOW_LENGTH ==> on_board(
                #[trigger] window_x(axis, x, i),
                #[trigger] window_y(axis, y, i),
            )),
{
    if is_window(axis, x, y) {
        assert forall|i: int| 0 <= i < WINDOW_LENGTH implies on_board(
            #[trigger] window_x(axis, x, i),
            #[trigger] window_y(axis, y, i),
        ) by {
            lemma_window_cells_on_board(axis, x, y, i);
        }
    }
    if forall|i: int|
        0 <= i < WINDOW_LENGTH ==> on_board(
            #[trigger] window_x(axis, x, i),
            #[trigger] window_y(axis, y, i),
        ) {
        assert(on_board(window_x(axis, x, 0), window_y(axis, y, 0)));
        assert(on_board(window_x(axis, x, 3), window_y(axis, y, 3)));
    }
}

/// Tells whether a window along `axis` can start at column `x`, row `y`.
pub fn window_fits(axis: Axis, x: usize, y: usize) -> (fits: bool)
    ensures
        fits == is_window(axis, x as int, y as int),
{
    if x >= BOARD_WIDTH || y >= BOARD_HEIGHT {
        return false;
    }
    match axis {
        Axis::Horizontal => x <= 3,
        Axis::Vertical => y <= 2,
        Axis::Falling => x <= 3 && y <= 2,
        Axis::Rising => x <= 3 && y >= 3,
    }
}

/// Reads the four pieces of a window off the board.
pub fn read_window(board: &[char; BOARD_SIZE], axis: Axis, x: usize, y: usize) -> (section: [char;
    4])
    requires
        is_window(axis, x as int, y as int),
    ensures
        section@ == window(board@, axis, x as int, y as int),
{
    let section: [char; 4] = match axis {
        Axis::Horizontal => [
            get_piece_at(board, x, y),
            get_piece_at(board, x + 1, y),
            get_piece_at(board, x + 2, y),
            get_piece_at(board, x + 3, y),
        ],
        Axis::Vertical => [
            get_piece_at(board, x, y),
            get_piece_at(board, x, y + 1),
            get_piece_at(board, x, y + 2),
            get_piece_at(board, x, y + 3),
        ],
        Axis::Falling => [
            get_piece_at(board, x, y),
            get_piece_at(board, x + 1, y + 1),
            get_piece_at(board, x + 2, y + 2),
            get_piece_at(board, x + 3, y + 3),
        ],
        Axis::Rising => [
            get_piece_at(board, x, y),
            get_piece_at(board, x + 1, y - 1),
            get_piece_at(board, x + 2, y - 2),
            get_piece_at(board, x + 3, y - 3),
        ],
    };
    assert(section@ =~= window(board@, axis, x as int, y as int));
    section
}

/// Tells whether a window along `axis` starts at column `x`, row `y` and
/// holds `piece` on all four cells.
fn four_from(board: &[char; BOARD_SIZE], piece: char, axis: Axis, x: usize, y: usize) -> (full:
    bool)
    ensures
        full == (is_window(axis, x as int, y as int) && window_full(
            board@,
            piece,
            axis,
            x as int,
            y as int,
        )),
{
    if !window_fits(axis, x, y) {
        return false;
    }
    let section: [char; 4] = read_window(board, axis, x, y);
    section[0] == piece && section[1] == piece && section[2] == piece && section[3] == piece
}

/// Checks whether the board holds four in a row for the given piece:
/// horizontally, vertically or along either diagonal.
pub fn is_winning_board(board: &[char; BOARD_SIZE], piece: char) -> (won: bool)
    ensures
        won == has_four(board@, piece),
{
    let mut i: usize = 0;
    while i < BOARD_SIZE
        invariant
            i <= BOARD_SIZE,
            forall|axis: Axis, x: int, y: int|
                #![trigger window_full(board@, piece, axis, x, y)]
                is_window(axis, x, y) && cell_index(x, y) < i ==> !window_full(
                    board@,
                    piece,
                    axis,
                    x,
                    y,
                ),
        decreases BOARD_SIZE - i,
    {
        let x: usize = i % BOARD_WIDTH;
        let y: usize = i / BOARD_WIDTH;
        if four_from(board, piece, Axis::Horizontal, x, y) || four_from(
            board,
            piece,
            Axis::Vertical,
            x,
            y,
        ) || four_from(board, piece, Axis::Falling, x, y) || four_from(
            board,
            piece,
            Axis::Rising,
            x,
            y,
        ) {
            return true;
        }
        assert forall|axis: Axis, x2: int, y2: int|
            #![trigger window_full(board@, piece, axis, x2, y2)]
            is_window(axis, x2, y2) && cell_index(x2, y2) < i + 1 implies !window_full(
            board@,
            piece,
            axis,
            x2,
            y2,
        ) by {
            if cell_index(x2, y2) == i {
                assert(x2 == x && y2 == y);
            }
        }
        i += 1;
    }
    false
}

} // verus!
