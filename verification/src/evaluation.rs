//! The static evaluator: a score for a board from one piece's point of
//! view. Every window of four cells contributes a small score by what it
//! holds, and every piece in the center column earns a bonus.

use vstd::prelude::*;
use crate::board::{
    get_piece_at,
    piece_at,
    BOARD_HEIGHT,
    BOARD_SIZE,
    BOARD_WIDTH,
    EMPTY,
    RED_PIECE,
    YELLOW_PIECE,
};
use crate::lines::{
    is_window,
    lemma_window_cells_on_board,
    read_window,
    window,
    window_fits,
    Axis,
    WINDOW_LENGTH,
};

verus! {

/// Score of a window that holds four of the piece.
pub const FOUR_SCORE: i16 = 100;

/// Score of a window that holds three of the piece and an empty cell.
pub const THREE_SCORE: i16 = 5;

/// Score of a window that holds two of the piece and two empty cells.
pub const TWO_SCORE: i16 = 2;

/// What a window costs that holds three opposing pieces and an empty cell.
pub const THREAT_PENALTY: i16 = 4;

/// Bonus for each piece in the center column.
pub const CENTER_BONUS: i16 = 4;

/// The center column.
pub const CENTER_COLUMN: usize = 3;

/// No board scores less than this: 69 windows with a threat in each.
pub const SCORE_MIN: i16 = -276;

/// The greatest score of a board: 69 windows of four, and six pieces in
/// the center column.
pub const SCORE_MAX: i16 = 6924;

/// The piece that plays against `piece`.
pub open spec fn opponent(piece: char) -> char {
    if piece == RED_PIECE {
        YELLOW_PIECE
    } else {
        RED_PIECE
    }
}

/// How many of the first `n` cells of `section` hold `piece`.
pub open spec fn count_in(section: Seq<char>, piece: char, n: int) -> int
    decreases n,
{
    if n <= 0 {
        0
    } else {
        count_in(section, piece, n - 1) + if section[n - 1] == piece {
            1int
        } else {
            0int
        }
    }
}

/// How many cells of `section` hold `piece`.
pub open spec fn occurrences(section: Seq<char>, piece: char) -> int {
    count_in(section, piece, section.len() as int)
}

/// The score of a window by the number of its cells that hold the piece,
/// that are empty, and that hold the opposing piece.
pub open spec fn score_of_counts(own: int, empty: int, opposing: int) -> int {
    (if own == 4 {
        FOUR_SCORE as int
    } else if own == 3 && empty == 1 {
        THREE_SCORE as int
    } else if own == 2 && empty == 2 {
        TWO_SCORE as int
    } else {
        0
    }) - (if opposing == 3 && empty == 1 {
        THREAT_PENALTY as int
    } else {
        0
    })
}

/// The score of a section of four cells for `piece`.
pub open spec fn section_score(section: Seq<char>, piece: char) -> int {
    score_of_counts(
        occurrences(section, piece),
        occurrences(section, EMPTY),
        occurrences(section, opponent(piece)),
    )
}

/// What the window along `axis` that starts at cell `i` (counted row by
/// row) adds to the score; nothing where no such window fits.
pub open spec fn anchored_score(cells: Seq<char>, piece: char, axis: Axis, i: int) -> int {
    let x = i % BOARD_WIDTH as int;
    let y = i / BOARD_WIDTH as int;
    if is_window(axis, x, y) {
        section_score(window(cells, axis, x, y), piece)
    } else {
        0
    }
}

/// The sum of the scores of the windows along `axis` that start at one of
/// the first `n` cells.
pub open spec fn axis_score(cells: Seq<char>, piece: char, axis: Axis, n: int) -> int
    decreases n,
{
    if n <= 0 {
        0
    } else {
        axis_score(cells, piece, axis, n - 1) + anchored_score(cells, piece, axis, n - 1)
    }
}

/// How many cells of the center column hold `piece`, among its first `n`
/// rows.
pub open spec fn center_count(cells: Seq<char>, piece: char, n: int) -> int
    decreases n,
{
    if n <= 0 {
        0
    } else {
        center_count(cells, piece, n - 1) + if piece_at(cells, CENTER_COLUMN as int, n - 1)
            == piece {
            1int
        } else {
            0int
        }
    }
}

/// The score of a board for `piece`: the center bonus, and the scores of
/// all windows along the four axes.
pub open spec fn board_score(cells: Seq<char>, piece: char) -> int {
    CENTER_BONUS * center_count(cells, piece, BOARD_HEIGHT as int) + axis_score(
        cells,
        piece,
        Axis::Horizontal,
        BOARD_SIZE as int,
    ) + axis_score(cells, piece, Axis::Vertical, BOARD_SIZE as int) + axis_score(
        cells,
        piece,
        Axis::Falling,
        BOARD_SIZE as int,
    ) + axis_score(cells, piece, Axis::Rising, BOARD_SIZE as int)
}

/// Red pieces become yellow and yellow pieces red.
pub open spec fn swap_piece(piece: char) -> char {
    if piece == RED_PIECE {
        YELLOW_PIECE
    } else if piece == YELLOW_PIECE {
        RED_PIECE
    } else {
        piece
    }
}

/// The board with the colors of all pieces swapped.
pub open spec fn swap_pieces(cells: Seq<char>) -> Seq<char> {
    Seq::new(cells.len(), |i: int| swap_piece(cells[i]))
}

/// How many windows along `axis` start at one of the first `n` cells.
pub open spec fn window_count(axis: Axis, n: int) -> int
    decreases n,
{
    if n <= 0 {
        0
    } else {
        window_count(axis, n - 1) + if is_window(
            axis,
            (n - 1) % BOARD_WIDTH as int,
            (n - 1) / BOARD_WIDTH as int,
        ) {
            1int
        } else {
            0int
        }
    }
}

/// The board has 24 windows along its rows, 21 along its columns and 12
/// along the diagonals of either direction: 69 in all.
pub proof fn lemma_window_counts()
    ensures
        window_count(Axis::Horizontal, BOARD_SIZE as int) == 24,
        window_count(Axis::Vertical, BOARD_SIZE as int) == 21,
        window_count(Axis::Falling, BOARD_SIZE as int) == 12,
        window_count(Axis::Rising, BOARD_SIZE as int) == 12,
{
    reveal_with_fuel(window_count, 43);
}

proof fn lemma_axis_score_bounds(cells: Seq<char>, piece: char, axis: Axis, n: int)
    requires
        0 <= n,
    ensures
        -4 * window_count(axis, n) <= axis_score(cells, piece, axis, n) <= 100 * window_count(
            axis,
            n,
        ),
        0 <= window_count(axis, n) <= n,
    decreases n,
{
    if n > 0 {
        lemma_axis_score_bounds(cells, piece, axis, n - 1);
    }
}

proof fn lemma_center_count_bounds(cells: Seq<char>, piece: char, n: int)
    requires
        0 <= n,
    ensures
        0 <= center_count(cells, piece, n) <= n,
    decreases n,
{
    if n > 0 {
        lemma_center_count_bounds(cells, piece, n - 1);
    }
}

/// The score of a board lies between `SCORE_MIN` and `SCORE_MAX`, and so
/// strictly between the least and the greatest `i16`.
pub proof fn lemma_board_score_bounds(cells: Seq<char>, piece: char)
    ensures
        SCORE_MIN <= board_score(cells, piece) <= SCORE_MAX,
        i16::MIN < board_score(cells, piece) < i16::MAX,
{
    lemma_window_counts();
    lemma_center_count_bounds(cells, piece, BOARD_HEIGHT as int);
    lemma_axis_score_bounds(cells, piece, Axis::Horizontal, BOARD_SIZE as int);
    lemma_axis_score_bounds(cells, piece, Axis::Vertical, BOARD_SIZE as int);
    lemma_axis_score_bounds(cells, piece, Axis::Falling, BOARD_SIZE as int);
    lemma_axis_score_bounds(cells, piece, Axis::Rising, BOARD_SIZE as int);
}

proof fn lemma_count_in_swapped(section: Seq<char>, piece: char, n: int)
    requires
        0 <= n <= section.len(),
    ensures
        count_in(swap_pieces(section), swap_piece(piece), n) == count_in(section, piece, n),
    decreases n,
{
    if n > 0 {
        lemma_count_in_swapped(section, piece, n - 1);
    }
}

proof fn lemma_section_score_swapped(section: Seq<char>, piece: char)
    requires
        piece == RED_PIECE || piece == YELLOW_PIECE,
    ensures
        section_score(swap_pieces(section), swap_piece(piece)) == section_score(section, piece),
{
    let n = section.len() as int;
    lemma_count_in_swapped(section, piece, n);
    lemma_count_in_swapped(section, EMPTY, n);
    lemma_count_in_swapped(section, opponent(piece), n);
}

proof fn lemma_axis_score_swapped(cells: Seq<char>, piece: char, axis: Axis, n: int)
    requires
        cells.len() == BOARD_SIZE,
        piece == RED_PIECE || piece == YELLOW_PIECE,
        0 <= n <= BOARD_SIZE,
    ensures
        axis_score(swap_pieces(cells), swap_piece(piece), axis, n) == axis_score(
            cells,
            piece,
            axis,
            n,
        ),
    decreases n,
{
    if n > 0 {
        lemma_axis_score_swapped(cells, piece, axis, n - 1);
        let x = (n - 1) % BOARD_WIDTH as int;
        let y = (n - 1) / BOARD_WIDTH as int;
        if is_window(axis, x, y) {
            assert(window(swap_pieces(cells), axis, x, y) =~= swap_pieces(
                window(cells, axis, x, y),
            )) by {
                assert forall|i: int| 0 <= i < WINDOW_LENGTH implies window(
                    swap_pieces(cells),
                    axis,
                    x,
                    y,
                )[i] == swap_pieces(window(cells, axis, x, y))[i] by {
                    lemma_window_cells_on_board(axis, x, y, i);
                }
            }
            lemma_section_score_swapped(window(cells, axis, x, y), piece);
        }
    }
}

proof fn lemma_center_count_swapped(cells: Seq<char>, piece: char, n: int)
    requires
        cells.len() == BOARD_SIZE,
        0 <= n <= BOARD_HEIGHT,
    ensures
        center_count(swap_pieces(cells), swap_piece(piece), n) == center_count(cells, piece, n),
    decreases n,
{
    if n > 0 {
        lemma_center_count_swapped(cells, piece, n - 1);
    }
}

/// Swapping the colors of all pieces on the board and evaluating for the
/// other color leaves the score as it was: the evaluator treats red and
/// yellow alike.
pub proof fn lemma_score_of_swapped_board(cells: Seq<char>, piece: char)
    requires
        cells.len() == BOARD_SIZE,
        piece == RED_PIECE || piece == YELLOW_PIECE,
    ensures
        board_score(swap_pieces(cells), swap_piece(piece)) == board_score(cells, piece),
{
    lemma_center_count_swapped(cells, piece, BOARD_HEIGHT as int);
    lemma_axis_score_swapped(cells, piece, Axis::Horizontal, BOARD_SIZE as int);
    lemma_axis_score_swapped(cells, piece, Axis::Vertical, BOARD_SIZE as int);
    lemma_axis_score_swapped(cells, piece, Axis::Falling, BOARD_SIZE as int);
    lemma_axis_score_swapped(cells, piece, Axis::Rising, BOARD_SIZE as int);
}

/// On a board whose score for `piece` is zero, the score is the negative
/// of the score of the swapped board for the other color. A score is what
/// a board holds for one side, not the difference between the two sides:
/// where it is not zero, the swapped board has the same score and not its
/// negative.
pub proof fn lemma_zero_score_negates_under_swap(cells: Seq<char>, piece: char)
    requires
        cells.len() == BOARD_SIZE,
        piece == RED_PIECE || piece == YELLOW_PIECE,
        board_score(cells, piece) == 0,
    ensures
        board_score(cells, piece) == -board_score(swap_pieces(cells), swap_piece(piece)),
{
    lemma_score_of_swapped_board(cells, piece);
}

/// Evaluates a section of four cells, returning its score for `piece`.
pub fn evaluate_section(section: &[char], piece: char) -> (score: i16)
    requires
        section@.len() == WINDOW_LENGTH,
    ensures
        score == section_score(section@, piece),
        -THREAT_PENALTY <= score <= FOUR_SCORE,
{
    let opp_piece: char = if piece == RED_PIECE {
        YELLOW_PIECE
    } else {
        RED_PIECE
    };
    let mut piece_count: usize = 0;
    let mut empty_count: usize = 0;
    let mut opp_count: usize = 0;
    let mut i: usize = 0;
    while i < WINDOW_LENGTH
        invariant
            i <= WINDOW_LENGTH,
            section@.len() == WINDOW_LENGTH,
            opp_piece == opponent(piece),
            piece_count == count_in(section@, piece, i as int),
            empty_count == count_in(section@, EMPTY, i as int),
            opp_count == count_in(section@, opp_piece, i as int),
            piece_count <= i,
            empty_count <= i,
            opp_count <= i,
        decreases WINDOW_LENGTH - i,
    {
        if section[i] == piece {
            piece_count += 1;
        }
        if section[i] == EMPTY {
            empty_count += 1;
        }
        if section[i] == opp_piece {
            opp_count += 1;
        }
        i += 1;
    }
    let mut score: i16 = 0;
    if piece_count == 4 {
        score += FOUR_SCORE;
    } else if piece_count == 3 && empty_count == 1 {
        score += THREE_SCORE;
    } else if piece_count == 2 && empty_count == 2 {
        score += TWO_SCORE;
    }
    if opp_count == 3 && empty_count == 1 {
        score -= THREAT_PENALTY;
    }
    score
}

/// Sums the scores of all windows along one axis.
fn evaluate_axis(board: &[char; BOARD_SIZE], piece: char, axis: Axis) -> (score: i16)
    ensures
        score == axis_score(board@, piece, axis, BOARD_SIZE as int),
{
    let mut score: i16 = 0;
    let mut i: usize = 0;
    while i < BOARD_SIZE
        invariant
            i <= BOARD_SIZE,
            score == axis_score(board@, piece, axis, i as int),
            -4 * i <= score <= 100 * i,
        decreases BOARD_SIZE - i,
    {
        let x: usize = i % BOARD_WIDTH;
        let y: usize = i / BOARD_WIDTH;
        if window_fits(axis, x, y) {
            let section: [char; 4] = read_window(board, axis, x, y);
            score += evaluate_section(section.as_slice(), piece);
        }
        i += 1;
    }
    score
}

/// Evaluates the whole board for `piece`: every row, column and diagonal
/// is cut into sections of four cells, each section is scored, and the
/// scores are summed up with the bonus for the center column.
pub fn evaluate_board(board: &[char; BOARD_SIZE], piece: char) -> (score: i16)
    ensures
        score == board_score(board@, piece),
        SCORE_MIN <= score <= SCORE_MAX,
{
    let mut score: i16 = 0;
    let mut r: usize = 0;
    while r < BOARD_HEIGHT
        invariant
            r <= BOARD_HEIGHT,
            score == 4 * center_count(board@, piece, r as int),
            0 <= score <= 4 * r,
        decreases BOARD_HEIGHT - r,
    {
        if get_piece_at(board, CENTER_COLUMN, r) == piece {
            score += CENTER_BONUS;
        }
        r += 1;
    }
    proof {
        lemma_board_score_bounds(board@, piece);
        lemma_axis_score_bounds(board@, piece, Axis::Horizontal, BOARD_SIZE as int);
        lemma_axis_score_bounds(board@, piece, Axis::Vertical, BOARD_SIZE as int);
        lemma_axis_score_bounds(board@, piece, Axis::Falling, BOARD_SIZE as int);
        lemma_axis_score_bounds(board@, piece, Axis::Rising, BOARD_SIZE as int);
    }
    score += evaluate_axis(board, piece, Axis::Horizontal);
    score += evaluate_axis(board, piece, Axis::Vertical);
    score += evaluate_axis(board, piece, Axis::Falling);
    score += evaluate_axis(board, piece, Axis::Rising);
    score
}

} // verus!
