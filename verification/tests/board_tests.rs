use connect_four::board::{
    clear_board, drop_at_column, get_open_columns, get_piece_at, is_column_open, new_board,
    set_square_at, BOARD_HEIGHT, BOARD_SIZE, BOARD_WIDTH, EMPTY, PIECE_ICON, RED_PIECE,
    YELLOW_PIECE,
};

fn grid(rows: [&str; 6]) -> [char; BOARD_SIZE] {
    let mut board: [char; BOARD_SIZE] = [EMPTY; BOARD_SIZE];
    for (y, row) in rows.iter().enumerate() {
        assert_eq!(row.chars().count(), BOARD_WIDTH);
        for (x, piece) in row.chars().enumerate() {
            board[x + y * BOARD_WIDTH] = piece;
        }
    }
    board
}

#[test]
fn constants_describe_a_seven_by_six_board() {
    assert_eq!(BOARD_WIDTH, 7);
    assert_eq!(BOARD_HEIGHT, 6);
    assert_eq!(BOARD_SIZE, 42);
    assert_eq!(RED_PIECE, 'R');
    assert_eq!(YELLOW_PIECE, 'Y');
    assert_eq!(EMPTY, '_');
    assert_eq!(PIECE_ICON, 'O');
}

#[test]
fn new_board_is_empty() {
    let board = new_board();
    assert_eq!(board, [EMPTY; BOARD_SIZE]);
}

#[test]
fn clear_board_empties_every_square() {
    let mut board = grid([
        "RRYYRRY", "YYRRYYR", "RRYYRRY", "YYRRYYR", "RRYYRRY", "YYRRYYR",
    ]);
    clear_board(&mut board);
    assert_eq!(board, [EMPTY; BOARD_SIZE]);
}

#[test]
fn get_piece_reads_row_major_cells() {
    let board = grid([
        "______Y", "_______", "_______", "_______", "_______", "R______",
    ]);
    assert_eq!(get_piece_at(&board, 6, 0), 'Y');
    assert_eq!(get_piece_at(&board, 0, 5), 'R');
    assert_eq!(get_piece_at(&board, 0, 0), '_');
    assert_eq!(board[6], 'Y');
    assert_eq!(board[35], 'R');
}

#[test]
fn set_square_writes_one_cell_only() {
    let mut board = new_board();
    set_square_at(&mut board, 2, 3, 'R');
    let mut expected: [char; BOARD_SIZE] = [EMPTY; BOARD_SIZE];
    expected[2 + 3 * 7] = 'R';
    assert_eq!(board, expected);
    assert_eq!(get_piece_at(&board, 2, 3), 'R');
}

#[test]
fn drop_lands_on_the_bottom_of_an_empty_column() {
    let mut board = new_board();
    let placed = drop_at_column(&mut board, 4, YELLOW_PIECE);
    assert_eq!(placed, (4, 5));
    assert_eq!(
        board,
        grid(["_______", "_______", "_______", "_______", "_______", "____Y__"])
    );
}

#[test]
fn drops_stack_upwards() {
    let mut board = new_board();
    let mut row: usize = 6;
    for turn in 0..6 {
        let piece: char = if turn % 2 == 0 { RED_PIECE } else { YELLOW_PIECE };
        row -= 1;
        assert!(is_column_open(&board, 0));
        assert_eq!(drop_at_column(&mut board, 0, piece), (0, row));
    }
    assert_eq!(
        board,
        grid(["Y______", "R______", "Y______", "R______", "Y______", "R______"])
    );
    assert!(!is_column_open(&board, 0));
}

#[test]
fn drop_falls_to_the_lowest_empty_cell_below_a_floating_piece() {
    let mut board = grid([
        "_______", "_______", "__R____", "_______", "_______", "__Y____",
    ]);
    assert_eq!(drop_at_column(&mut board, 2, 'Y'), (2, 4));
    assert_eq!(drop_at_column(&mut board, 2, 'R'), (2, 3));
    assert_eq!(drop_at_column(&mut board, 2, 'Y'), (2, 1));
}

#[test]
fn undo_after_drop_restores_the_board() {
    let boards = [
        new_board(),
        grid(["_______", "_______", "___Y___", "___R___", "__YRR__", "_RYRYY_"]),
        grid(["_______", "R______", "Y______", "R______", "Y______", "R______"]),
        grid(["_RYYRRY", "YYRRYYR", "RRYYRRY", "YYRRYYR", "RRYYRRY", "YYRRYYR"]),
    ];
    for before in boards.iter() {
        for col in 0..BOARD_WIDTH {
            if !is_column_open(before, col) {
                continue;
            }
            for piece in [RED_PIECE, YELLOW_PIECE] {
                let mut board = *before;
                let placed = drop_at_column(&mut board, col, piece);
                assert_eq!(placed.0, col);
                assert_eq!(get_piece_at(&board, placed.0, placed.1), piece);
                assert_ne!(board, *before);
                set_square_at(&mut board, placed.0, placed.1, EMPTY);
                assert_eq!(board, *before);
            }
        }
    }
}

#[test]
fn column_is_open_while_its_top_cell_is_empty() {
    let board = grid([
        "Y_____R", "R______", "Y______", "R______", "Y______", "R______",
    ]);
    assert!(!is_column_open(&board, 0));
    assert!(is_column_open(&board, 1));
    assert!(is_column_open(&board, 5));
    assert!(!is_column_open(&board, 6));
}

#[test]
fn open_columns_come_in_ascending_order() {
    assert_eq!(get_open_columns(&new_board()), vec![0, 1, 2, 3, 4, 5, 6]);
    let board = grid([
        "Y_R__Y_", "R_Y__R_", "Y_R__Y_", "R_Y__R_", "Y_R__Y_", "R_Y__R_",
    ]);
    assert_eq!(get_open_columns(&board), vec![1, 3, 4, 6]);
}

#[test]
fn full_board_has_no_open_columns() {
    let board = grid([
        "RRYYRRY", "YYRRYYR", "RRYYRRY", "YYRRYYR", "RRYYRRY", "YYRRYYR",
    ]);
    assert_eq!(get_open_columns(&board), Vec::<usize>::new());
    for col in 0..BOARD_WIDTH {
        assert!(!is_column_open(&board, col));
    }
}
