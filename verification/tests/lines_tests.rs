use connect_four::board::{BOARD_HEIGHT, BOARD_SIZE, BOARD_WIDTH, EMPTY, RED_PIECE, YELLOW_PIECE};
use connect_four::lines::{is_winning_board, read_window, window_fits, Axis, WINDOW_LENGTH};

fn layout(rows: [&str; 6]) -> [char; BOARD_SIZE] {
    let mut board: [char; BOARD_SIZE] = [EMPTY; BOARD_SIZE];
    for (y, row) in rows.iter().enumerate() {
        assert_eq!(row.chars().count(), BOARD_WIDTH);
        for (x, piece) in row.chars().enumerate() {
            board[x + y * BOARD_WIDTH] = piece;
        }
    }
    board
}

fn count_windows(axis: Axis) -> usize {
    let mut count: usize = 0;
    for y in 0..BOARD_HEIGHT {
        for x in 0..BOARD_WIDTH {
            if window_fits(axis, x, y) {
                count += 1;
            }
        }
    }
    count
}

#[test]
fn there_are_sixty_nine_windows() {
    assert_eq!(WINDOW_LENGTH, 4);
    assert_eq!(count_windows(Axis::Horizontal), 24);
    assert_eq!(count_windows(Axis::Vertical), 21);
    assert_eq!(count_windows(Axis::Falling), 12);
    assert_eq!(count_windows(Axis::Rising), 12);
}

#[test]
fn windows_fit_only_where_four_cells_lie_on_the_board() {
    assert!(window_fits(Axis::Horizontal, 3, 0));
    assert!(!window_fits(Axis::Horizontal, 4, 0));
    assert!(window_fits(Axis::Vertical, 6, 2));
    assert!(!window_fits(Axis::Vertical, 6, 3));
    assert!(window_fits(Axis::Falling, 3, 2));
    assert!(!window_fits(Axis::Falling, 3, 3));
    assert!(!window_fits(Axis::Falling, 4, 2));
    assert!(window_fits(Axis::Rising, 0, 3));
    assert!(window_fits(Axis::Rising, 3, 5));
    assert!(!window_fits(Axis::Rising, 0, 2));
    assert!(!window_fits(Axis::Rising, 4, 5));
    assert!(!window_fits(Axis::Horizontal, 7, 0));
    assert!(!window_fits(Axis::Horizontal, 0, 6));
    assert!(!window_fits(Axis::Vertical, usize::MAX, usize::MAX));
}

#[test]
fn read_window_follows_each_axis() {
    let board = layout([
        "abcdefg", "hijklmn", "opqrstu", "vwxyzAB", "CDEFGHI", "JKLMNOP",
    ]);
    assert_eq!(read_window(&board, Axis::Horizontal, 3, 1), ['k', 'l', 'm', 'n']);
    assert_eq!(read_window(&board, Axis::Vertical, 6, 2), ['u', 'B', 'I', 'P']);
    assert_eq!(read_window(&board, Axis::Falling, 3, 2), ['r', 'z', 'H', 'P']);
    assert_eq!(read_window(&board, Axis::Rising, 3, 5), ['M', 'G', 'A', 'u']);
    assert_eq!(read_window(&board, Axis::Rising, 0, 3), ['v', 'p', 'j', 'd']);
}

#[test]
fn empty_board_is_won_by_nobody() {
    let board = layout([
        "_______", "_______", "_______", "_______", "_______", "_______",
    ]);
    assert!(!is_winning_board(&board, RED_PIECE));
    assert!(!is_winning_board(&board, YELLOW_PIECE));
}

#[test]
fn four_in_a_row_wins() {
    let board = layout([
        "_______", "_______", "_______", "_______", "_______", "___YYYY",
    ]);
    assert!(is_winning_board(&board, YELLOW_PIECE));
    assert!(!is_winning_board(&board, RED_PIECE));
}

#[test]
fn four_in_a_column_wins() {
    let board = layout([
        "______R", "______R", "______R", "______R", "______Y", "______Y",
    ]);
    assert!(is_winning_board(&board, RED_PIECE));
    assert!(!is_winning_board(&board, YELLOW_PIECE));
}

#[test]
fn four_on_a_rising_diagonal_wins() {
    let board = layout([
        "_______", "_______", "___R___", "__RY___", "_RYY___", "RYYR___",
    ]);
    assert!(is_winning_board(&board, RED_PIECE));
    assert!(!is_winning_board(&board, YELLOW_PIECE));
}

#[test]
fn four_on_a_rising_diagonal_that_ends_in_the_last_column_wins() {
    let board = layout([
        "_______", "_______", "______Y", "_____YR", "____YRR", "___YRRR",
    ]);
    assert!(is_winning_board(&board, YELLOW_PIECE));
    assert!(!is_winning_board(&board, RED_PIECE));
}

#[test]
fn four_on_a_falling_diagonal_wins() {
    let board = layout([
        "_______", "_______", "R______", "YR_____", "YYR____", "YYYR___",
    ]);
    assert!(is_winning_board(&board, RED_PIECE));
    assert!(!is_winning_board(&board, YELLOW_PIECE));
}

#[test]
fn four_on_a_falling_diagonal_in_the_top_corner_wins() {
    let board = layout([
        "Y______", "RY_____", "RYY____", "YRYY___", "RYRR___", "YRRY___",
    ]);
    assert!(is_winning_board(&board, YELLOW_PIECE));
    assert!(!is_winning_board(&board, RED_PIECE));
}

#[test]
fn three_in_a_row_do_not_win() {
    let board = layout([
        "_______", "_______", "_______", "R______", "R_____Y", "RYYY__Y",
    ]);
    assert!(!is_winning_board(&board, RED_PIECE));
    assert!(!is_winning_board(&board, YELLOW_PIECE));
}

#[test]
fn a_row_does_not_wrap_around_the_edge() {
    let board = layout([
        "_______", "_______", "_______", "_______", "_____YY", "YY_____",
    ]);
    assert!(!is_winning_board(&board, YELLOW_PIECE));
}

#[test]
fn full_board_without_four_is_won_by_nobody() {
    let board = layout([
        "RRYYRRY", "YYRRYYR", "RRYYRRY", "YYRRYYR", "RRYYRRY", "YYRRYYR",
    ]);
    assert!(!is_winning_board(&board, RED_PIECE));
    assert!(!is_winning_board(&board, YELLOW_PIECE));
}
