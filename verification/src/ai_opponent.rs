//! The search: minimax to a bounded depth with alpha-beta pruning, the
//! same search with nothing pruned, and the choice of a move.

use vstd::prelude::*;
use crate::board::{
    board_full,
    column_open,
    drop_at_column,
    dropped,
    get_open_columns,
    is_column_open,
    lemma_undo_restores_board,
    set_square_at,
    BOARD_SIZE,
    BOARD_WIDTH,
    EMPTY,
    RED_PIECE,
    YELLOW_PIECE,
};
use crate::evaluation::evaluate_board;
use crate::game_tree::{
    best_reply,
    leaf_value,
    lemma_best_reply_is_best,
    lemma_cut_scan_is_final,
    lemma_minimax_value_range,
    lemma_scan_column,
    minimax_result,
    minimax_value,
    move_value,
    mover,
    reported_column,
    scan,
    search_result,
    search_value,
    DRAW,
    NO_COL,
    RED_WIN,
    YELLOW_WIN,
};
use crate::lines::{has_four, is_winning_board};
use crate::pruning::{
    lemma_pruning_preserves_result,
    lemma_search_stands_for_minimax,
    lemma_widest_scan,
    stands_for,
};

verus! {

/// Draws an index below `len`. Calls `fastrand::usize` on the range that
/// ends before `len`, which draws from the thread's generator; all that is
/// claimed is that the result lies in that range. The range must not be
/// empty.
#[verifier::external_body]
fn random_index(len: usize) -> (index: usize)
    requires
        len > 0,
    ensures
        index < len,
{
    fastrand::usize(..len)
}

/// Draws one of the open columns of a board that is not full.
fn random_open_column(playing_board: &[char; BOARD_SIZE]) -> (col: usize)
    requires
        !board_full(playing_board@),
    ensures
        col < BOARD_WIDTH,
        column_open(playing_board@, col as int),
{
    let open_columns: Vec<usize> = get_open_columns(playing_board);
    open_columns[random_index(open_columns.len())]
}

/// Checks if the board is in a terminal state. Returns three flags: red
/// has won, yellow has won, no more moves are available.
pub fn is_terminal_node(playing_board: &[char; BOARD_SIZE]) -> (flags: (bool, bool, bool))
    ensures
        flags.0 == has_four(playing_board@, RED_PIECE),
        flags.1 == has_four(playing_board@, YELLOW_PIECE),
        flags.2 == board_full(playing_board@),
{
    (
        is_winning_board(playing_board, RED_PIECE),
        is_winning_board(playing_board, YELLOW_PIECE),
        get_open_columns(playing_board).len() == 0,
    )
}

/// Tries the moves into the open columns in ascending order for the side
/// to move: makes the move, values the resulting board by a search one
/// level less deep, and takes the move back. Keeps the first move with the
/// best value, narrows the window by it, and stops once the window is
/// empty. Reports `start` as the column where no move is better than the
/// worst value.
pub fn explore_moves(
    playing_board: &mut [char; BOARD_SIZE],
    depth: u16,
    is_max: bool,
    alpha: i16,
    beta: i16,
    start: usize,
) -> (best: (usize, i16))
    requires
        depth > 0,
    ensures
        final(playing_board)@ == old(playing_board)@,
        best.0 == reported_column(
            scan(
                old(playing_board)@,
                depth as nat,
                is_max,
                alpha as int,
                beta as int,
                BOARD_WIDTH as nat,
            ).column,
            start as int,
        ),
        best.1 == scan(
            old(playing_board)@,
            depth as nat,
            is_max,
            alpha as int,
            beta as int,
            BOARD_WIDTH as nat,
        ).value,
    decreases depth, 0int,
{
    let ghost cells = playing_board@;
    let piece: char = if is_max {
        YELLOW_PIECE
    } else {
        RED_PIECE
    };
    let mut low: i16 = alpha;
    let mut high: i16 = beta;
    let mut eval: i16 = if is_max {
        RED_WIN
    } else {
        YELLOW_WIN
    };
    let mut column: usize = start;
    let mut cut: bool = false;
    let mut col: usize = 0;
    while col < BOARD_WIDTH && !cut
        invariant
            col <= BOARD_WIDTH,
            depth > 0,
            playing_board@ == cells,
            piece == mover(is_max),
            ({
                let s = scan(cells, depth as nat, is_max, alpha as int, beta as int, col as nat);
                &&& s.value == eval
                &&& s.alpha == low
                &&& s.beta == high
                &&& s.cut == cut
                &&& reported_column(s.column, start as int) == column
            }),
        decreases BOARD_WIDTH - col,
    {
        if is_column_open(playing_board, col) {
            proof {
                lemma_undo_restores_board(cells, col as int, piece);
            }
            let temp_move: (usize, usize) = drop_at_column(playing_board, col, piece);
            let new_eval: (usize, i16) = search(
                playing_board,
                depth - 1,
                !is_max,
                low,
                high,
                NO_COL,
            );
            set_square_at(playing_board, temp_move.0, temp_move.1, EMPTY);
            if is_max {
                if new_eval.1 > eval {
                    eval = new_eval.1;
                    column = col;
                }
                if eval > low {
                    low = eval;
                }
            } else {
                if new_eval.1 < eval {
                    eval = new_eval.1;
                    column = col;
                }
                if eval < high {
                    high = eval;
                }
            }
            cut = high <= low;
        }
        col += 1;
    }
    proof {
        if cut {
            lemma_cut_scan_is_final(
                cells,
                depth as nat,
                is_max,
                alpha as int,
                beta as int,
                col as nat,
                BOARD_WIDTH as nat,
            );
        }
    }
    (column, eval)
}

/// Searches the game tree below a board to `depth` levels with alpha-beta
/// pruning, and returns the column of the best move of the side to move
/// and the value of the board.
///
/// A board that is won or full, or any board at depth 0, has no move
/// chosen: the column is `NO_COL`. Otherwise the column is the first among
/// the moves with the best value, or `start` where no move is better than
/// the worst value.
pub fn search(
    playing_board: &mut [char; BOARD_SIZE],
    depth: u16,
    is_max: bool,
    alpha: i16,
    beta: i16,
    start: usize,
) -> (best: (usize, i16))
    ensures
        final(playing_board)@ == old(playing_board)@,
        (best.0 as int, best.1 as int) == search_result(
            old(playing_board)@,
            depth as nat,
            is_max,
            alpha as int,
            beta as int,
            start as int,
        ),
        best.1 == search_value(
            old(playing_board)@,
            depth as nat,
            is_max,
            alpha as int,
            beta as int,
        ),
        has_four(old(playing_board)@, RED_PIECE) ==> best == (NO_COL, RED_WIN),
        !has_four(old(playing_board)@, RED_PIECE) && has_four(old(playing_board)@, YELLOW_PIECE)
            ==> best == (NO_COL, YELLOW_WIN),
        !has_four(old(playing_board)@, RED_PIECE) && !has_four(old(playing_board)@, YELLOW_PIECE)
            && board_full(old(playing_board)@) ==> best == (NO_COL, DRAW),
        alpha < beta ==> stands_for(
            best.1 as int,
            minimax_value(old(playing_board)@, depth as nat, is_max),
            alpha as int,
            beta as int,
        ),
        alpha == RED_WIN && beta == YELLOW_WIN ==> (best.0 as int, best.1 as int)
            == minimax_result(old(playing_board)@, depth as nat, is_max, start as int),
    decreases depth, 1int,
{
    proof {
        if alpha < beta {
            lemma_search_stands_for_minimax(
                playing_board@,
                depth as nat,
                is_max,
                alpha as int,
                beta as int,
            );
        }
        lemma_pruning_preserves_result(playing_board@, depth as nat, is_max, start as int);
    }
    let is_terminal: (bool, bool, bool) = is_terminal_node(playing_board);
    if is_terminal.0 {
        (NO_COL, RED_WIN)
    } else if is_terminal.1 {
        (NO_COL, YELLOW_WIN)
    } else if is_terminal.2 {
        (NO_COL, DRAW)
    } else if depth == 0 {
        (NO_COL, evaluate_board(playing_board, YELLOW_PIECE))
    } else {
        explore_moves(playing_board, depth, is_max, alpha, beta, start)
    }
}

/// Searches for the best move of the side to move, considering the moves
/// that may follow up to `depth` levels. Returns the column of that move
/// and the value of the board.
///
/// A board that is won or full, or any board at depth 0, has no move
/// chosen: the column is `NO_COL`. Otherwise the column is the first among
/// the moves with the best value; where no move is better than the worst
/// value, it is an open column drawn at random.
pub fn minimax(
    playing_board: &mut [char; BOARD_SIZE],
    depth: u16,
    is_max: bool,
    alpha: i16,
    beta: i16,
) -> (best: (usize, i16))
    ensures
        final(playing_board)@ == old(playing_board)@,
        best.1 == search_value(
            old(playing_board)@,
            depth as nat,
            is_max,
            alpha as int,
            beta as int,
        ),
        leaf_value(old(playing_board)@, depth as nat) is Some ==> best.0 == NO_COL,
        leaf_value(old(playing_board)@, depth as nat) is None ==> ({
            let found = scan(
                old(playing_board)@,
                depth as nat,
                is_max,
                alpha as int,
                beta as int,
                BOARD_WIDTH as nat,
            ).column;
            &&& best.0 < BOARD_WIDTH
            &&& column_open(old(playing_board)@, best.0 as int)
            &&& found != NO_COL ==> best.0 == found
        }),
        has_four(old(playing_board)@, RED_PIECE) ==> best == (NO_COL, RED_WIN),
        !has_four(old(playing_board)@, RED_PIECE) && has_four(old(playing_board)@, YELLOW_PIECE)
            ==> best == (NO_COL, YELLOW_WIN),
        !has_four(old(playing_board)@, RED_PIECE) && !has_four(old(playing_board)@, YELLOW_PIECE)
            && board_full(old(playing_board)@) ==> best == (NO_COL, DRAW),
        alpha < beta ==> stands_for(
            best.1 as int,
            minimax_value(old(playing_board)@, depth as nat, is_max),
            alpha as int,
            beta as int,
        ),
        alpha == RED_WIN && beta == YELLOW_WIN ==> best.1 == minimax_value(
            old(playing_board)@,
            depth as nat,
            is_max,
        ),
{
    let open_columns: Vec<usize> = get_open_columns(playing_board);
    let start: usize = if open_columns.len() > 0 {
        open_columns[random_index(open_columns.len())]
    } else {
        NO_COL
    };
    proof {
        lemma_scan_column(
            playing_board@,
            depth as nat,
            is_max,
            alpha as int,
            beta as int,
            BOARD_WIDTH as nat,
        );
    }
    search(playing_board, depth, is_max, alpha, beta, start)
}

/// Tries the moves into all open columns in ascending order for the side
/// to move, with nothing pruned, and keeps the first move with the best
/// value. Reports `start` as the column where no move is better than the
/// worst value.
pub fn explore_all_moves(
    playing_board: &mut [char; BOARD_SIZE],
    depth: u16,
    is_max: bool,
    start: usize,
) -> (best: (usize, i16))
    requires
        depth > 0,
    ensures
        final(playing_board)@ == old(playing_board)@,
        best.0 == reported_column(
            best_reply(old(playing_board)@, depth as nat, is_max, BOARD_WIDTH as nat).column,
            start as int,
        ),
        best.1 == best_reply(old(playing_board)@, depth as nat, is_max, BOARD_WIDTH as nat).value,
    decreases depth, 0int,
{
    let ghost cells = playing_board@;
    let piece: char = if is_max {
        YELLOW_PIECE
    } else {
        RED_PIECE
    };
    let mut eval: i16 = if is_max {
        RED_WIN
    } else {
        YELLOW_WIN
    };
    let mut column: usize = start;
    let mut col: usize = 0;
    while col < BOARD_WIDTH
        invariant
            col <= BOARD_WIDTH,
            depth > 0,
            playing_board@ == cells,
            piece == mover(is_max),
            ({
                let b = best_reply(cells, depth as nat, is_max, col as nat);
                &&& b.value == eval
                &&& reported_column(b.column, start as int) == column
            }),
        decreases BOARD_WIDTH - col,
    {
        if is_column_open(playing_board, col) {
            proof {
                lemma_undo_restores_board(cells, col as int, piece);
            }
            let temp_move: (usize, usize) = drop_at_column(playing_board, col, piece);
            let new_eval: (usize, i16) = full_minimax(playing_board, depth - 1, !is_max, NO_COL);
            set_square_at(playing_board, temp_move.0, temp_move.1, EMPTY);
            if is_max {
                if new_eval.1 > eval {
                    eval = new_eval.1;
                    column = col;
                }
            } else {
                if new_eval.1 < eval {
                    eval = new_eval.1;
                    column = col;
                }
            }
        }
        col += 1;
    }
    (column, eval)
}

/// Searches the game tree below a board to `depth` levels with nothing
/// pruned: plain minimax. Returns what `search` returns with the widest
/// window.
pub fn full_minimax(
    playing_board: &mut [char; BOARD_SIZE],
    depth: u16,
    is_max: bool,
    start: usize,
) -> (best: (usize, i16))
    ensures
        final(playing_board)@ == old(playing_board)@,
        (best.0 as int, best.1 as int) == minimax_result(
            old(playing_board)@,
            depth as nat,
            is_max,
            start as int,
        ),
        best.1 == minimax_value(old(playing_board)@, depth as nat, is_max),
        (best.0 as int, best.1 as int) == search_result(
            old(playing_board)@,
            depth as nat,
            is_max,
            RED_WIN as int,
            YELLOW_WIN as int,
            start as int,
        ),
    decreases depth, 1int,
{
    proof {
        lemma_pruning_preserves_result(playing_board@, depth as nat, is_max, start as int);
    }
    let is_terminal: (bool, bool, bool) = is_terminal_node(playing_board);
    if is_terminal.0 {
        (NO_COL, RED_WIN)
    } else if is_terminal.1 {
        (NO_COL, YELLOW_WIN)
    } else if is_terminal.2 {
        (NO_COL, DRAW)
    } else if depth == 0 {
        (NO_COL, evaluate_board(playing_board, YELLOW_PIECE))
    } else {
        explore_all_moves(playing_board, depth, is_max, start)
    }
}

/// Chooses yellow's move on a board that is not full. Every move into an
/// open column is valued by the search, `max_depth - 1` levels deep with
/// red to move on the resulting board. The move chosen is the first among
/// those with the greatest value; where every move loses, it is an open
/// column drawn at random.
pub fn choose_move(playing_board: &mut [char; BOARD_SIZE], max_depth: u16) -> (column: usize)
    requires
        max_depth > 0,
        !board_full(old(playing_board)@),
    ensures
        final(playing_board)@ == old(playing_board)@,
        column < BOARD_WIDTH,
        column_open(old(playing_board)@, column as int),
        forall|col: int|
            0 <= col < BOARD_WIDTH && column_open(old(playing_board)@, col)
                ==> #[trigger] move_value(old(playing_board)@, max_depth as nat, true, col)
                <= move_value(old(playing_board)@, max_depth as nat, true, column as int),
        move_value(old(playing_board)@, max_depth as nat, true, column as int) > RED_WIN
            ==> forall|col: int|
            0 <= col < column && column_open(old(playing_board)@, col)
                ==> #[trigger] move_value(old(playing_board)@, max_depth as nat, true, col)
                < move_value(old(playing_board)@, max_depth as nat, true, column as int),
{
    let start: usize = random_open_column(playing_board);
    proof {
        let cells = playing_board@;
        lemma_widest_scan(cells, max_depth as nat, true, BOARD_WIDTH as nat);
        lemma_best_reply_is_best(cells, max_depth as nat, true, BOARD_WIDTH as nat);
        lemma_minimax_value_range(
            dropped(cells, start as int, YELLOW_PIECE),
            (max_depth - 1) as nat,
            false,
        );
    }
    let best: (usize, i16) = explore_moves(
        playing_board,
        max_depth,
        true,
        RED_WIN,
        YELLOW_WIN,
        start,
    );
    best.0
}

} // verus!
