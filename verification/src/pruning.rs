//! Why pruning is sound: within a window the pruned search either finds
//! the minimax value or bounds it from the side on which it fell out of
//! the window, and with the widest window it finds the minimax value and
//! the same move.

use vstd::prelude::*;
use crate::board::{column_open, dropped, BOARD_WIDTH};
use crate::game_tree::{
    best_reply,
    leaf_value,
    lemma_best_reply_range,
    lemma_minimax_value_range,
    minimax_result,
    minimax_value,
    mover,
    scan,
    search_result,
    search_value,
    Best,
    Scan,
    RED_WIN,
    YELLOW_WIN,
};

verus! {

/// A value that the pruned search found within the window from `alpha` to
/// `beta` stands for the minimax value `exact`: inside the window the two
/// are equal; at or below `alpha` the value found is an upper bound; at or
/// above `beta` it is a lower bound.
pub open spec fn stands_for(found: int, exact: int, alpha: int, beta: int) -> bool {
    &&& found <= alpha ==> exact <= found
    &&& found >= beta ==> exact >= found
    &&& alpha < found < beta ==> exact == found
}

/// How a pruned scan that started with the window from `alpha` to `beta`
/// relates to the unpruned scan over the same columns.
spec fn scan_tracks(pruned: Scan, full: Best, is_max: bool, alpha: int, beta: int) -> bool {
    if is_max {
        &&& pruned.beta == beta
        &&& pruned.alpha == if pruned.value > alpha {
            pruned.value
        } else {
            alpha
        }
        &&& pruned.cut == (pruned.beta <= pruned.alpha)
        &&& if pruned.cut {
            pruned.value >= beta && full.value >= pruned.value
        } else {
            full.value <= pruned.value && (pruned.value > alpha ==> pruned.value == full.value)
        }
    } else {
        &&& pruned.alpha == alpha
        &&& pruned.beta == if pruned.value < beta {
            pruned.value
        } else {
            beta
        }
        &&& pruned.cut == (pruned.beta <= pruned.alpha)
        &&& if pruned.cut {
            pruned.value <= alpha && full.value <= pruned.value
        } else {
            full.value >= pruned.value && (pruned.value < beta ==> pruned.value == full.value)
        }
    }
}

/// Within a window that is not empty, the value that the pruned search
/// finds stands for the minimax value.
pub proof fn lemma_search_stands_for_minimax(
    cells: Seq<char>,
    depth: nat,
    is_max: bool,
    alpha: int,
    beta: int,
)
    requires
        RED_WIN <= alpha < beta <= YELLOW_WIN,
    ensures
        stands_for(
            search_value(cells, depth, is_max, alpha, beta),
            minimax_value(cells, depth, is_max),
            alpha,
            beta,
        ),
    decreases depth, BOARD_WIDTH + 1,
{
    if leaf_value(cells, depth) is None {
        lemma_scan_tracks(cells, depth, is_max, alpha, beta, BOARD_WIDTH as nat);
    }
}

proof fn lemma_scan_tracks(
    cells: Seq<char>,
    depth: nat,
    is_max: bool,
    alpha: int,
    beta: int,
    n: nat,
)
    requires
        RED_WIN <= alpha < beta <= YELLOW_WIN,
        depth > 0,
    ensures
        scan_tracks(
            scan(cells, depth, is_max, alpha, beta, n),
            best_reply(cells, depth, is_max, n),
            is_max,
            alpha,
            beta,
        ),
    decreases depth, n,
{
    if n > 0 {
        lemma_scan_tracks(cells, depth, is_max, alpha, beta, (n - 1) as nat);
        let prev = scan(cells, depth, is_max, alpha, beta, (n - 1) as nat);
        if column_open(cells, n - 1) && !prev.cut {
            lemma_search_stands_for_minimax(
                dropped(cells, n - 1, mover(is_max)),
                (depth - 1) as nat,
                !is_max,
                prev.alpha,
                prev.beta,
            );
        }
    }
}

/// With the widest window the pruned scan and the unpruned scan find the
/// same move with the same value.
pub proof fn lemma_widest_scan(cells: Seq<char>, depth: nat, is_max: bool, n: nat)
    requires
        depth > 0,
    ensures
        scan(cells, depth, is_max, RED_WIN as int, YELLOW_WIN as int, n).value == best_reply(
            cells,
            depth,
            is_max,
            n,
        ).value,
        scan(cells, depth, is_max, RED_WIN as int, YELLOW_WIN as int, n).column == best_reply(
            cells,
            depth,
            is_max,
            n,
        ).column,
    decreases n,
{
    lemma_scan_tracks(cells, depth, is_max, RED_WIN as int, YELLOW_WIN as int, n);
    lemma_best_reply_range(cells, depth, is_max, n);
    if n > 0 {
        let m = (n - 1) as nat;
        lemma_widest_scan(cells, depth, is_max, m);
        lemma_scan_tracks(cells, depth, is_max, RED_WIN as int, YELLOW_WIN as int, m);
        lemma_best_reply_range(cells, depth, is_max, m);
        let prev = scan(cells, depth, is_max, RED_WIN as int, YELLOW_WIN as int, m);
        if column_open(cells, n - 1) {
            let child = dropped(cells, n - 1, mover(is_max));
            lemma_minimax_value_range(child, (depth - 1) as nat, !is_max);
            if !prev.cut {
                lemma_search_stands_for_minimax(
                    child,
                    (depth - 1) as nat,
                    !is_max,
                    prev.alpha,
                    prev.beta,
                );
            }
        }
    }
}

/// Pruning never changes the result: searched with the widest window, a
/// board gets the column and the value that the unpruned minimax search
/// gives it.
pub proof fn lemma_pruning_preserves_result(
    cells: Seq<char>,
    depth: nat,
    is_max: bool,
    start: int,
)
    ensures
        search_result(cells, depth, is_max, RED_WIN as int, YELLOW_WIN as int, start)
            == minimax_result(cells, depth, is_max, start),
        search_value(cells, depth, is_max, RED_WIN as int, YELLOW_WIN as int) == minimax_value(
            cells,
            depth,
            is_max,
        ),
{
    if leaf_value(cells, depth) is None {
        lemma_widest_scan(cells, depth, is_max, BOARD_WIDTH as nat);
    }
}

} // verus!
