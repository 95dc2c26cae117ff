use connect_four::board::{BOARD_SIZE, BOARD_WIDTH, EMPTY, RED_PIECE, YELLOW_PIECE};
use connect_four::evaluation::{
    evaluate_board, evaluate_section, CENTER_BONUS, CENTER_COLUMN, FOUR_SCORE, SCORE_MAX,
    SCORE_MIN, THREAT_PENALTY, THREE_SCORE, TWO_SCORE,
};

fn position(rows: [&str; 6]) -> [char; BOARD_SIZE] {
    let mut board: [char; BOARD_SIZE] = [EMPTY; BOARD_SIZE];
    for (y, row) in rows.iter().enumerate() {
        assert_eq!(row.chars().count(), BOARD_WIDTH);
        for (x, piece) in row.chars().enumerate() {
            board[x + y * BOARD_WIDTH] = piece;
        }
    }
    board
}

fn swapped(board: &[char; BOARD_SIZE]) -> [char; BOARD_SIZE] {
    let mut other = *board;
    for cell in other.iter_mut() {
        if *cell == RED_PIECE {
            *cell = YELLOW_PIECE;
        } else if *cell == YELLOW_PIECE {
            *cell = RED_PIECE;
        }
    }
    other
}

#[test]
fn scoring_constants_keep_their_order() {
    assert_eq!(FOUR_SCORE, 100);
    assert_eq!(THREE_SCORE, 5);
    assert_eq!(TWO_SCORE, 2);
    assert_eq!(THREAT_PENALTY, 4);
    assert_eq!(CENTER_BONUS, 4);
    assert_eq!(CENTER_COLUMN, 3);
    assert!(FOUR_SCORE > THREE_SCORE && THREE_SCORE > TWO_SCORE && TWO_SCORE > 0);
    assert!(-THREAT_PENALTY < 0);
    assert_eq!(SCORE_MIN, -276);
    assert_eq!(SCORE_MAX, 6924);
    assert!(i16::MIN < SCORE_MIN && SCORE_MAX < i16::MAX);
}

#[test]
fn section_with_four_scores_a_hundred() {
    assert_eq!(evaluate_section(&['Y', 'Y', 'Y', 'Y'], 'Y'), 100);
    assert_eq!(evaluate_section(&['R', 'R', 'R', 'R'], 'R'), 100);
}

#[test]
fn section_with_three_and_a_gap_scores_five() {
    assert_eq!(evaluate_section(&['Y', 'Y', '_', 'Y'], 'Y'), 5);
    assert_eq!(evaluate_section(&['_', 'R', 'R', 'R'], 'R'), 5);
}

#[test]
fn section_with_two_and_two_gaps_scores_two() {
    assert_eq!(evaluate_section(&['Y', '_', '_', 'Y'], 'Y'), 2);
    assert_eq!(evaluate_section(&['_', 'R', 'R', '_'], 'R'), 2);
}

#[test]
fn section_with_an_opposing_threat_costs_four() {
    assert_eq!(evaluate_section(&['R', 'R', '_', 'R'], 'Y'), -4);
    assert_eq!(evaluate_section(&['Y', 'Y', 'Y', '_'], 'R'), -4);
}

#[test]
fn other_sections_score_nothing() {
    assert_eq!(evaluate_section(&['_', '_', '_', '_'], 'Y'), 0);
    assert_eq!(evaluate_section(&['Y', '_', '_', '_'], 'Y'), 0);
    assert_eq!(evaluate_section(&['Y', 'Y', 'Y', 'R'], 'Y'), 0);
    assert_eq!(evaluate_section(&['Y', 'Y', 'R', '_'], 'Y'), 0);
    assert_eq!(evaluate_section(&['R', 'R', 'R', 'Y'], 'Y'), 0);
    assert_eq!(evaluate_section(&['R', 'R', 'R', 'R'], 'Y'), 0);
    assert_eq!(evaluate_section(&['R', 'R', '_', '_'], 'Y'), 0);
}

#[test]
fn empty_board_scores_nothing() {
    let board = position([
        "_______", "_______", "_______", "_______", "_______", "_______",
    ]);
    assert_eq!(evaluate_board(&board, YELLOW_PIECE), 0);
    assert_eq!(evaluate_board(&board, RED_PIECE), 0);
}

#[test]
fn piece_in_the_center_column_earns_the_bonus() {
    let center = position([
        "_______", "_______", "_______", "_______", "_______", "___Y___",
    ]);
    assert_eq!(evaluate_board(&center, YELLOW_PIECE), 4);
    assert_eq!(evaluate_board(&center, RED_PIECE), 0);
    let corner = position([
        "______Y", "_______", "_______", "_______", "_______", "_______",
    ]);
    assert_eq!(evaluate_board(&corner, YELLOW_PIECE), 0);
}

#[test]
fn windows_add_up_along_a_row() {
    let two = position([
        "_______", "_______", "_______", "_______", "_______", "YY_____",
    ]);
    assert_eq!(evaluate_board(&two, YELLOW_PIECE), 2);
    assert_eq!(evaluate_board(&two, RED_PIECE), 0);
    let three = position([
        "_______", "_______", "_______", "_______", "_______", "YYY____",
    ]);
    assert_eq!(evaluate_board(&three, YELLOW_PIECE), 7);
    assert_eq!(evaluate_board(&three, RED_PIECE), -4);
    let four = position([
        "_______", "_______", "_______", "_______", "_______", "YYYY___",
    ]);
    assert_eq!(evaluate_board(&four, YELLOW_PIECE), 111);
    assert_eq!(evaluate_board(&four, RED_PIECE), -4);
}

#[test]
fn windows_on_the_outermost_diagonals_count() {
    let rising = position([
        "_______", "_______", "______Y", "_____YR", "____YRR", "___YRRR",
    ]);
    assert_eq!(evaluate_board(&rising, YELLOW_PIECE), 104);
    assert_eq!(evaluate_board(&rising, RED_PIECE), 2);
    let falling = position([
        "_______", "_______", "___Y___", "____Y__", "_____Y_", "______Y",
    ]);
    assert_eq!(evaluate_board(&falling, YELLOW_PIECE), 111);
    assert_eq!(evaluate_board(&falling, RED_PIECE), -4);
}

#[test]
fn boards_in_mid_game_have_their_exact_scores() {
    let a = position([
        "_______", "_______", "_______", "___Y___", "___R___", "__YRR__",
    ]);
    assert_eq!(evaluate_board(&a, YELLOW_PIECE), 4);
    assert_eq!(evaluate_board(&a, RED_PIECE), 12);
    let b = position([
        "_______", "_______", "___Y___", "___R___", "__YRR__", "_RYRYY_",
    ]);
    assert_eq!(evaluate_board(&b, YELLOW_PIECE), 6);
    assert_eq!(evaluate_board(&b, RED_PIECE), 18);
    let c = position([
        "_______", "_______", "___R___", "__RY___", "_RYY___", "RYYR___",
    ]);
    assert_eq!(evaluate_board(&c, YELLOW_PIECE), 15);
    assert_eq!(evaluate_board(&c, RED_PIECE), 111);
    let full = position([
        "RRYYRRY", "YYRRYYR", "RRYYRRY", "YYRRYYR", "RRYYRRY", "YYRRYYR",
    ]);
    assert_eq!(evaluate_board(&full, YELLOW_PIECE), 12);
    assert_eq!(evaluate_board(&full, RED_PIECE), 12);
}

#[test]
fn evaluation_does_not_change_the_board() {
    let board = position([
        "_______", "_______", "___Y___", "___R___", "__YRR__", "_RYRYY_",
    ]);
    let copy = board;
    let first = evaluate_board(&board, YELLOW_PIECE);
    let second = evaluate_board(&board, YELLOW_PIECE);
    assert_eq!(first, second);
    assert_eq!(board, copy);
}

#[test]
fn swapping_the_colors_swaps_the_scores() {
    let boards = [
        position(["_______", "_______", "_______", "_______", "_______", "YYY____"]),
        position(["_______", "_______", "_______", "___Y___", "___R___", "__YRR__"]),
        position(["_______", "_______", "___Y___", "___R___", "__YRR__", "_RYRYY_"]),
        position(["_______", "_______", "___R___", "__RY___", "_RYY___", "RYYR___"]),
        position(["RRYYRRY", "YYRRYYR", "RRYYRRY", "YYRRYYR", "RRYYRRY", "YYRRYYR"]),
    ];
    for board in boards.iter() {
        let other = swapped(board);
        assert_eq!(
            evaluate_board(board, YELLOW_PIECE),
            evaluate_board(&other, RED_PIECE)
        );
        assert_eq!(
            evaluate_board(board, RED_PIECE),
            evaluate_board(&other, YELLOW_PIECE)
        );
    }
}

#[test]
fn zero_score_is_its_own_negative_under_a_swap() {
    let board = position([
        "Y______", "R______", "Y______", "R______", "Y______", "R______",
    ]);
    let other = swapped(&board);
    assert_eq!(evaluate_board(&board, YELLOW_PIECE), 0);
    assert_eq!(
        evaluate_board(&board, YELLOW_PIECE),
        -evaluate_board(&other, RED_PIECE)
    );
    let center = position([
        "_______", "_______", "_______", "_______", "_______", "___Y___",
    ]);
    assert_eq!(evaluate_board(&center, YELLOW_PIECE), 4);
    assert_eq!(evaluate_board(&swapped(&center), RED_PIECE), 4);
}

#[test]
fn scores_stay_inside_the_bounds() {
    let boards = [
        position(["YYYYYYY", "YYYYYYY", "YYYYYYY", "YYYYYYY", "YYYYYYY", "YYYYYYY"]),
        position(["RRR_RRR", "RRR_RRR", "RRR_RRR", "_______", "RRR_RRR", "RRR_RRR"]),
    ];
    assert_eq!(evaluate_board(&boards[0], YELLOW_PIECE), SCORE_MAX);
    assert_eq!(evaluate_board(&boards[0], RED_PIECE), 0);
    assert_eq!(evaluate_board(&boards[1], YELLOW_PIECE), -176);
    assert_eq!(evaluate_board(&boards[1], RED_PIECE), 256);
    for board in boards.iter() {
        for piece in [RED_PIECE, YELLOW_PIECE] {
            let score = evaluate_board(board, piece);
            assert!(SCORE_MIN <= score && score <= SCORE_MAX);
        }
    }
}
