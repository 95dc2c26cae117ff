//! The grid: 42 cells in row-major order, row 0 at the top. A piece dropped
//! into a column lands on the lowest empty cell of that column.

use vstd::prelude::*;

verus! {

/// The first player's piece.
pub const RED_PIECE: char = 'R';

/// The second player's piece; the engine plays it.
pub const YELLOW_PIECE: char = 'Y';

/// An empty square.
pub const EMPTY: char = '_';

/// How a piece is drawn.
pub const PIECE_ICON: char = 'O';

/// Number of rows.
pub const BOARD_HEIGHT: usize = 6;

/// Number of columns.
pub const BOARD_WIDTH: usize = 7;

/// Number of squares.
pub const BOARD_SIZE: usize = 42;

/// Index of the cell in column `x` and row `y`.
pub open spec fn cell_index(x: int, y: int) -> int {
    x + y * BOARD_WIDTH as int
}

/// The piece in column `x`, row `y` of `cells`.
pub open spec fn piece_at(cells: Seq<char>, x: int, y: int) -> char {
    cells[cell_index(x, y)]
}

/// `cells` with the cell in column `x`, row `y` replaced by `piece`.
pub open spec fn with_square(cells: Seq<char>, x: int, y: int, piece: char) -> Seq<char> {
    cells.update(cell_index(x, y), piece)
}

/// A board on which every cell is empty.
pub open spec fn empty_board() -> Seq<char> {
    Seq::new(BOARD_SIZE as nat, |i: int| EMPTY)
}

/// A column accepts a piece when its topmost cell is empty.
pub open spec fn column_open(cells: Seq<char>, col: int) -> bool {
    piece_at(cells, col, 0) == EMPTY
}

/// Some cell of the column is empty.
pub open spec fn has_empty_cell(cells: Seq<char>, col: int) -> bool {
    exists|row: int| 0 <= row < BOARD_HEIGHT && piece_at(cells, col, row) == EMPTY
}

/// No column accepts a piece.
pub open spec fn board_full(cells: Seq<char>) -> bool {
    forall|col: int| 0 <= col < BOARD_WIDTH ==> !column_open(cells, col)
}

/// The row of the lowest empty cell of `col` among the rows from the top
/// down to `row`; -1 where none of them is empty.
pub open spec fn lowest_empty_from(cells: Seq<char>, col: int, row: int) -> int
    decreases row + 1,
{
    if row < 0 {
        -1
    } else if piece_at(cells, col, row) == EMPTY {
        row
    } else {
        lowest_empty_from(cells, col, row - 1)
    }
}

/// The row on which a piece dropped into `col` comes to rest.
pub open spec fn landing_row(cells: Seq<char>, col: int) -> int {
    lowest_empty_from(cells, col, BOARD_HEIGHT - 1)
}

/// The board after `piece` was dropped into `col`.
pub open spec fn dropped(cells: Seq<char>, col: int, piece: char) -> Seq<char> {
    with_square(cells, col, landing_row(cells, col), piece)
}

/// `open` lists exactly the open columns of `cells`, in ascending order.
pub open spec fn lists_open_columns(open: Seq<usize>, cells: Seq<char>) -> bool {
    &&& forall|i: int, j: int| 0 <= i < j < open.len() ==> open[i] < open[j]
    &&& forall|i: int|
        0 <= i < open.len() ==> open[i] < BOARD_WIDTH && column_open(cells, open[i] as int)
    &&& forall|col: usize|
        col < BOARD_WIDTH && column_open(cells, col as int) ==> open.contains(col)
}

proof fn lemma_lowest_empty_from(cells: Seq<char>, col: int, row: int)
    requires
        -1 <= row < BOARD_HEIGHT,
    ensures
        -1 <= lowest_empty_from(cells, col, row) <= row,
        lowest_empty_from(cells, col, row) >= 0 ==> piece_at(
            cells,
            col,
            lowest_empty_from(cells, col, row),
        ) == EMPTY,
        forall|r: int|
            lowest_empty_from(cells, col, row) < r <= row ==> piece_at(cells, col, r) != EMPTY,
    decreases row + 1,
{
    if row >= 0 && piece_at(cells, col, row) != EMPTY {
        lemma_lowest_empty_from(cells, col, row - 1);
    }
}

/// The landing row of a column with an empty cell is the lowest empty cell
/// of that column: it is empty, and every cell below it is taken.
pub proof fn lemma_landing_row(cells: Seq<char>, col: int)
    requires
        has_empty_cell(cells, col),
    ensures
        0 <= landing_row(cells, col) < BOARD_HEIGHT,
        piece_at(cells, col, landing_row(cells, col)) == EMPTY,
        forall|r: int|
            landing_row(cells, col) < r < BOARD_HEIGHT ==> piece_at(cells, col, r) != EMPTY,
{
    lemma_lowest_empty_from(cells, col, BOARD_HEIGHT - 1);
}

/// Dropping a piece and then emptying the square it landed on gives back
/// the board as it was before the drop.
pub proof fn lemma_undo_restores_board(cells: Seq<char>, col: int, piece: char)
    requires
        cells.len() == BOARD_SIZE,
        0 <= col < BOARD_WIDTH,
        has_empty_cell(cells, col),
    ensures
        with_square(dropped(cells, col, piece), col, landing_row(cells, col), EMPTY) == cells,
{
    lemma_landing_row(cells, col);
    assert(with_square(dropped(cells, col, piece), col, landing_row(cells, col), EMPTY) =~= cells);
}

/// Gets the piece at column `x`, row `y`. The two must name one of the 42
/// cells.
pub fn get_piece_at(board: &[char; BOARD_SIZE], x: usize, y: usize) -> (piece: char)
    requires
        cell_index(x as int, y as int) < BOARD_SIZE,
    ensures
        piece == piece_at(board@, x as int, y as int),
{
    board[x + y * BOARD_WIDTH]
}

/// Sets the square at column `x`, row `y` to `piece`, and leaves the other
/// squares as they are. The two must name one of the 42 cells.
pub fn set_square_at(board: &mut [char; BOARD_SIZE], x: usize, y: usize, piece: char)
    requires
        cell_index(x as int, y as int) < BOARD_SIZE,
    ensures
        final(board)@ == with_square(old(board)@, x as int, y as int, piece),
{
    board[x + y * BOARD_WIDTH] = piece;
}

/// A fresh board with every square empty.
pub fn new_board() -> (board: [char; BOARD_SIZE])
    ensures
        board@ == empty_board(),
{
    let blank: char = EMPTY;
    let board: [char; BOARD_SIZE] = [blank;BOARD_SIZE];
    assert(board@ =~= empty_board());
    board
}

/// Sets all squares of the board to empty.
pub fn clear_board(playing_board: &mut [char; BOARD_SIZE])
    ensures
        final(playing_board)@ == empty_board(),
{
    let mut i: usize = 0;
    while i < BOARD_SIZE
        invariant
            i <= BOARD_SIZE,
            forall|k: int| 0 <= k < i ==> playing_board@[k] == EMPTY,
        decreases BOARD_SIZE - i,
    {
        playing_board[i] = EMPTY;
        i += 1;
    }
    assert(playing_board@ =~= empty_board());
}

/// Drops a piece down the given column: it is placed on the lowest empty
/// square. Returns the column and the row of that square.
pub fn drop_at_column(board: &mut [char; BOARD_SIZE], col: usize, piece: char) -> (placed: (
    usize,
    usize,
))
    requires
        col < BOARD_WIDTH,
        has_empty_cell(old(board)@, col as int),
    ensures
        placed.0 == col,
        placed.1 < BOARD_HEIGHT,
        piece_at(old(board)@, col as int, placed.1 as int) == EMPTY,
        forall|row: int|
            placed.1 < row < BOARD_HEIGHT ==> piece_at(old(board)@, col as int, row) != EMPTY,
        placed.1 == landing_row(old(board)@, col as int),
        final(board)@ == with_square(old(board)@, col as int, placed.1 as int, piece),
        final(board)@ == dropped(old(board)@, col as int, piece),
{
    proof {
        lemma_landing_row(board@, col as int);
    }
    let mut row: usize = BOARD_HEIGHT - 1;
    while get_piece_at(board, col, row) != EMPTY
        invariant
            col < BOARD_WIDTH,
            landing_row(board@, col as int) <= row < BOARD_HEIGHT,
            0 <= landing_row(board@, col as int),
            piece_at(board@, col as int, landing_row(board@, col as int)) == EMPTY,
        decreases row,
    {
        row -= 1;
    }
    set_square_at(board, col, row, piece);
    (col, row)
}

/// Checks whether the given column still accepts a piece.
pub fn is_column_open(board: &[char; BOARD_SIZE], col: usize) -> (open: bool)
    requires
        col < BOARD_WIDTH,
    ensures
        open == column_open(board@, col as int),
{
    get_piece_at(board, col, 0) == EMPTY
}

/// Gets the indices of the columns that are not filled, in ascending order.
pub fn get_open_columns(board: &[char; BOARD_SIZE]) -> (open: Vec<usize>)
    ensures
        lists_open_columns(open@, board@),
        open@.len() <= BOARD_WIDTH,
        open@.len() == 0 <==> board_full(board@),
{
    let mut open_columns: Vec<usize> = Vec::new();
    let mut col: usize = 0;
    while col < BOARD_WIDTH
        invariant
            col <= BOARD_WIDTH,
            open_columns@.len() <= col,
            forall|i: int, j: int|
                0 <= i < j < open_columns@.len() ==> open_columns@[i] < open_columns@[j],
            forall|i: int|
                0 <= i < open_columns@.len() ==> open_columns@[i] < col && column_open(
                    board@,
                    open_columns@[i] as int,
                ),
            forall|c: usize|
                c < col && column_open(board@, c as int) ==> open_columns@.contains(c),
        decreases BOARD_WIDTH - col,
    {
        if is_column_open(board, col) {
            let ghost before = open_columns@;
            open_columns.push(col);
            assert(open_columns@[before.len() as int] == col);
            assert forall|c: usize|
                c < col + 1 && column_open(board@, c as int) implies open_columns@.contains(
                c,
            ) by {
                if c < col {
                    let i = choose|i: int| 0 <= i < before.len() && before[i] == c;
                    assert(open_columns@[i] == c);
                } else {
                    assert(open_columns@[before.len() as int] == c);
                }
            }
        }
        col += 1;
    }
    proof {
        if open_columns@.len() == 0 {
            assert forall|c: int| 0 <= c < BOARD_WIDTH implies !column_open(board@, c) by {
                if column_open(board@, c) {
                    assert(open_columns@.contains(c as usize));
                }
            }
        } else {
            assert(column_open(board@, open_columns@[0] as int));
        }
    }
    open_columns
}

} // verus!
