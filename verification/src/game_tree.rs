//! The game tree as mathematics: the value of a board where the search
//! stops, the minimax value of a board, and the scan over the moves of a
//! board, with and without pruning. Yellow is the maximizing side and red
//! the minimizing side.

use vstd::prelude::*;
use crate::board::{board_full, column_open, dropped, BOARD_WIDTH, RED_PIECE, YELLOW_PIECE};
use crate::evaluation::{board_score, lemma_board_score_bounds};
use crate::lines::has_four;

verus! {

/// The column reported where no move was chosen.
pub const NO_COL: usize = 8;

/// Value of a board that yellow has won.
pub const YELLOW_WIN: i16 = 32767;

/// Value of a board that red has won.
pub const RED_WIN: i16 = -32768;

/// Value of a full board that nobody has won.
pub const DRAW: i16 = 0;

/// The piece of the side to move.
pub open spec fn mover(is_max: bool) -> char {
    if is_max {
        YELLOW_PIECE
    } else {
        RED_PIECE
    }
}

/// The value that the side to move likes least.
pub open spec fn worst(is_max: bool) -> int {
    if is_max {
        RED_WIN as int
    } else {
        YELLOW_WIN as int
    }
}

/// `value` is strictly better than `best` for the side to move.
pub open spec fn better(is_max: bool, value: int, best: int) -> bool {
    if is_max {
        value > best
    } else {
        value < best
    }
}

/// The value of a board at which the search stops: a board that red has
/// won, else one that yellow has won, else a full board, else any board
/// once the depth is used up. `None` where the search goes on.
pub open spec fn leaf_value(cells: Seq<char>, depth: nat) -> Option<int> {
    if has_four(cells, RED_PIECE) {
        Some(RED_WIN as int)
    } else if has_four(cells, YELLOW_PIECE) {
        Some(YELLOW_WIN as int)
    } else if board_full(cells) {
        Some(DRAW as int)
    } else if depth == 0 {
        Some(board_score(cells, YELLOW_PIECE))
    } else {
        None
    }
}

/// The best move found so far and its value.
pub struct Best {
    pub column: int,
    pub value: int,
}

/// Takes the value `reply` of the move into `col` into account.
pub open spec fn best_step(prev: Best, is_max: bool, col: int, reply: int) -> Best {
    if better(is_max, reply, prev.value) {
        Best { column: col, value: reply }
    } else {
        prev
    }
}

/// The minimax value of a board, with nothing pruned.
pub open spec fn minimax_value(cells: Seq<char>, depth: nat, is_max: bool) -> int
    decreases depth, BOARD_WIDTH + 1,
{
    match leaf_value(cells, depth) {
        Some(value) => value,
        None => best_reply(cells, depth, is_max, BOARD_WIDTH as nat).value,
    }
}

/// The best among the moves into the open columns below `n`; the first of
/// them where several are equally good. Where no move is better than the
/// worst value, the column is `NO_COL`.
pub open spec fn best_reply(cells: Seq<char>, depth: nat, is_max: bool, n: nat) -> Best
    decreases depth, n,
{
    if n == 0 {
        Best { column: NO_COL as int, value: worst(is_max) }
    } else {
        let prev = best_reply(cells, depth, is_max, (n - 1) as nat);
        let col = n - 1;
        if depth == 0 || !column_open(cells, col) {
            prev
        } else {
            best_step(
                prev,
                is_max,
                col,
                minimax_value(dropped(cells, col, mover(is_max)), (depth - 1) as nat, !is_max),
            )
        }
    }
}

/// The value of the move into `col` for the side to move: the minimax
/// value of the board that the move leads to, on which the other side is
/// to move with one level less to go.
pub open spec fn move_value(cells: Seq<char>, depth: nat, is_max: bool, col: int) -> int {
    if depth == 0 {
        worst(is_max)
    } else {
        minimax_value(dropped(cells, col, mover(is_max)), (depth - 1) as nat, !is_max)
    }
}

/// The state of a pruned scan over the moves of one board.
pub struct Scan {
    pub column: int,
    pub value: int,
    pub alpha: int,
    pub beta: int,
    pub cut: bool,
}

/// Takes the value `reply` of the move into `col` into account, narrows
/// the window, and cuts the scan off once the window is empty.
pub open spec fn scan_step(prev: Scan, is_max: bool, col: int, reply: int) -> Scan {
    let improved = better(is_max, reply, prev.value);
    let value = if improved {
        reply
    } else {
        prev.value
    };
    let column = if improved {
        col
    } else {
        prev.column
    };
    let alpha = if is_max && value > prev.alpha {
        value
    } else {
        prev.alpha
    };
    let beta = if !is_max && value < prev.beta {
        value
    } else {
        prev.beta
    };
    Scan { column, value, alpha, beta, cut: beta <= alpha }
}

/// The value that the pruned search gives a board within the window from
/// `alpha` to `beta`.
pub open spec fn search_value(
    cells: Seq<char>,
    depth: nat,
    is_max: bool,
    alpha: int,
    beta: int,
) -> int
    decreases depth, BOARD_WIDTH + 1,
{
    match leaf_value(cells, depth) {
        Some(value) => value,
        None => scan(cells, depth, is_max, alpha, beta, BOARD_WIDTH as nat).value,
    }
}

/// The pruned scan after the columns below `n`: the open ones are tried in
/// ascending order until the scan is cut off. Each move is valued by a
/// pruned search of the board that it leads to, within the window as it
/// stands.
pub open spec fn scan(
    cells: Seq<char>,
    depth: nat,
    is_max: bool,
    alpha: int,
    beta: int,
    n: nat,
) -> Scan
    decreases depth, n,
{
    if n == 0 {
        Scan { column: NO_COL as int, value: worst(is_max), alpha, beta, cut: false }
    } else {
        let prev = scan(cells, depth, is_max, alpha, beta, (n - 1) as nat);
        let col = n - 1;
        if depth == 0 || prev.cut || !column_open(cells, col) {
            prev
        } else {
            scan_step(
                prev,
                is_max,
                col,
                search_value(
                    dropped(cells, col, mover(is_max)),
                    (depth - 1) as nat,
                    !is_max,
                    prev.alpha,
                    prev.beta,
                ),
            )
        }
    }
}

/// The column that a scan reports: the one it found, or `start` where no
/// move was better than the worst value.
pub open spec fn reported_column(found: int, start: int) -> int {
    if found == NO_COL {
        start
    } else {
        found
    }
}

/// What the unpruned search reports of a board: no column and the value
/// of the board where the search stops at once, else the best move and its
/// value.
pub open spec fn minimax_result(cells: Seq<char>, depth: nat, is_max: bool, start: int) -> (
    int,
    int,
) {
    match leaf_value(cells, depth) {
        Some(value) => (NO_COL as int, value),
        None => {
            let best = best_reply(cells, depth, is_max, BOARD_WIDTH as nat);
            (reported_column(best.column, start), best.value)
        },
    }
}

/// What the pruned search reports of a board within the window from
/// `alpha` to `beta`.
pub open spec fn search_result(
    cells: Seq<char>,
    depth: nat,
    is_max: bool,
    alpha: int,
    beta: int,
    start: int,
) -> (int, int) {
    match leaf_value(cells, depth) {
        Some(value) => (NO_COL as int, value),
        None => {
            let found = scan(cells, depth, is_max, alpha, beta, BOARD_WIDTH as nat);
            (reported_column(found.column, start), found.value)
        },
    }
}

/// The minimax value of a board lies between a win for red and a win for
/// yellow.
pub proof fn lemma_minimax_value_range(cells: Seq<char>, depth: nat, is_max: bool)
    ensures
        RED_WIN <= minimax_value(cells, depth, is_max) <= YELLOW_WIN,
    decreases depth, BOARD_WIDTH + 1,
{
    lemma_board_score_bounds(cells, YELLOW_PIECE);
    if leaf_value(cells, depth) is None {
        lemma_best_reply_range(cells, depth, is_max, BOARD_WIDTH as nat);
    }
}

/// The value of the best move lies between a win for red and a win for
/// yellow.
pub proof fn lemma_best_reply_range(cells: Seq<char>, depth: nat, is_max: bool, n: nat)
    ensures
        RED_WIN <= best_reply(cells, depth, is_max, n).value <= YELLOW_WIN,
    decreases depth, n,
{
    if n > 0 {
        lemma_best_reply_range(cells, depth, is_max, (n - 1) as nat);
        if depth > 0 && column_open(cells, n - 1) {
            lemma_minimax_value_range(
                dropped(cells, n - 1, mover(is_max)),
                (depth - 1) as nat,
                !is_max,
            );
        }
    }
}

/// The best move is a best one: no move into an open column has a better
/// value. Where a move was chosen, its column is open, the move has the
/// value reported, that value is better than the worst one, and it is
/// better than the value of every move into an open column before it.
/// Where none was chosen, the value is the worst one.
pub proof fn lemma_best_reply_is_best(cells: Seq<char>, depth: nat, is_max: bool, n: nat)
    requires
        depth > 0,
        n <= BOARD_WIDTH,
    ensures
        ({
            let best = best_reply(cells, depth, is_max, n);
            &&& forall|col: int|
                0 <= col < n && column_open(cells, col) ==> !better(
                    is_max,
                    #[trigger] move_value(cells, depth, is_max, col),
                    best.value,
                )
            &&& best.column == NO_COL ==> best.value == worst(is_max)
            &&& best.column != NO_COL ==> {
                &&& 0 <= best.column < n
                &&& column_open(cells, best.column)
                &&& move_value(cells, depth, is_max, best.column) == best.value
                &&& better(is_max, best.value, worst(is_max))
                &&& forall|col: int|
                    0 <= col < best.column && column_open(cells, col) ==> better(
                        is_max,
                        best.value,
                        #[trigger] move_value(cells, depth, is_max, col),
                    )
            }
        }),
    decreases n,
{
    if n > 0 {
        lemma_best_reply_is_best(cells, depth, is_max, (n - 1) as nat);
        lemma_best_reply_range(cells, depth, is_max, (n - 1) as nat);
    }
}

/// Once a scan is cut off it stays as it is.
pub proof fn lemma_cut_scan_is_final(
    cells: Seq<char>,
    depth: nat,
    is_max: bool,
    alpha: int,
    beta: int,
    n: nat,
    m: nat,
)
    requires
        n <= m,
        scan(cells, depth, is_max, alpha, beta, n).cut,
    ensures
        scan(cells, depth, is_max, alpha, beta, m) == scan(cells, depth, is_max, alpha, beta, n),
    decreases m,
{
    if n < m {
        lemma_cut_scan_is_final(cells, depth, is_max, alpha, beta, n, (m - 1) as nat);
    }
}

/// A scan finds only open columns below its bound.
pub proof fn lemma_scan_column(
    cells: Seq<char>,
    depth: nat,
    is_max: bool,
    alpha: int,
    beta: int,
    n: nat,
)
    ensures
        ({
            let found = scan(cells, depth, is_max, alpha, beta, n).column;
            found == NO_COL || (0 <= found < n && column_open(cells, found))
        }),
    decreases n,
{
    if n > 0 {
        lemma_scan_column(cells, depth, is_max, alpha, beta, (n - 1) as nat);
    }
}

} // verus!
