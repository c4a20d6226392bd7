use sudoku_check::board::{
    board_from_values, example_board, get_3x3, get_cell, get_column, get_row, slice_board,
    BoardType,
};
use sudoku_check::cell::Cell;

fn values_of(cells: &Vec<&Cell>) -> Vec<usize> {
    cells.iter().map(|c| c.current_value).collect()
}

#[test]
fn test_slice_board_0th_row() {
    let board = example_board();
    let result: Vec<Cell> = slice_board(&board, 0, 0, 9, 1)
        .iter()
        .cloned()
        .cloned()
        .collect();

    assert_eq!(result, board[0]);
}

#[test]
fn test_slice_board_8th_row() {
    let board = example_board();
    let result: Vec<Cell> = slice_board(&board, 8, 0, 9, 1)
        .iter()
        .cloned()
        .cloned()
        .collect();

    assert_eq!(result, board[8]);
}

#[test]
fn test_slice_board_0th_column() {
    let board = example_board();
    let result: Vec<Cell> = slice_board(&board, 0, 0, 1, 9)
        .iter()
        .cloned()
        .cloned()
        .collect();
    let expected: Vec<usize> = vec![7, 6, 8, 2, 4, 3, 1, 9, 5];

    assert_eq!(result, expected);
}

#[test]
fn test_slice_board_8th_column() {
    let board = example_board();
    let result: Vec<Cell> = slice_board(&board, 0, 8, 1, 9)
        .iter()
        .cloned()
        .cloned()
        .collect();
    let expected: Vec<usize> = vec![6, 9, 4, 1, 3, 5, 2, 8, 7];

    assert_eq!(result, expected);
}

#[test]
fn test_slice_board_2x2() {
    let board = example_board();
    let result: Vec<Cell> = slice_board(&board, 1, 1, 2, 2)
        .iter()
        .cloned()
        .cloned()
        .collect();
    let expected: Vec<usize> = vec![4, 3, 5, 1];

    assert_eq!(result, expected);
}

#[test]
fn test_get_row_0th_row() {
    let board = example_board();
    let result: Vec<Cell> = get_row(&board, 0).iter().cloned().cloned().collect();

    assert_eq!(result, board[0]);
}

#[test]
fn test_get_column_0th_column() {
    let board = example_board();
    let result: Vec<Cell> = get_column(&board, 0).iter().cloned().cloned().collect();
    let expected: Vec<usize> = vec![7, 6, 8, 2, 4, 3, 1, 9, 5];

    assert_eq!(result, expected);
}

#[test]
fn test_get_3x3_1_1() {
    let board = example_board();
    let result: Vec<Cell> = get_3x3(&board, 1, 1).iter().cloned().cloned().collect();
    let expected: Vec<usize> = vec![4, 3, 8, 5, 1, 3, 6, 5, 9];

    assert_eq!(result, expected);
}

#[test]
fn test_get_cell_0_0() {
    let board = example_board();
    let result: Vec<Cell> = get_3x3(&board, 0, 0).iter().cloned().cloned().collect();
    let expected: Vec<usize> = vec![7, 9, 2, 6, 4, 3, 8, 5, 1];

    assert_eq!(result, expected);
}

#[test]
fn test_get_cell_1_1() {
    let board = example_board();
    let result: Vec<Cell> = get_cell(&board, 1, 1).iter().cloned().cloned().collect();
    let expected: Vec<usize> = vec![9, 7, 3, 5, 6, 1, 4, 8, 2];

    assert_eq!(result, expected);
}

#[test]
fn every_row_matches_the_board() {
    let board = example_board();
    for i in 0..9 {
        let expected: Vec<usize> = board[i].iter().map(|c| c.current_value).collect();
        assert_eq!(values_of(&get_row(&board, i)), expected);
    }
}

#[test]
fn last_column_top_to_bottom() {
    let board = example_board();
    assert_eq!(values_of(&get_column(&board, 8)), vec![6, 9, 4, 1, 3, 5, 2, 8, 7]);
}

#[test]
fn last_box_row_major() {
    let board = example_board();
    assert_eq!(values_of(&get_cell(&board, 2, 2)), vec![5, 9, 2, 6, 3, 8, 4, 1, 7]);
    assert_eq!(values_of(&get_cell(&board, 0, 2)), vec![3, 8, 6, 1, 5, 9, 7, 2, 4]);
}

#[test]
fn whole_board_slice_is_row_major() {
    let board = example_board();
    let all = values_of(&slice_board(&board, 0, 0, 9, 9));
    assert_eq!(all.len(), 81);
    for r in 0..9 {
        for c in 0..9 {
            assert_eq!(all[9 * r + c], board[r][c].current_value);
        }
    }
}

#[test]
fn single_cell_slice() {
    let board = example_board();
    assert_eq!(values_of(&slice_board(&board, 4, 7, 1, 1)), vec![7]);
    assert_eq!(values_of(&slice_board(&board, 8, 8, 1, 1)), vec![7]);
}

#[test]
fn empty_slice() {
    let board = example_board();
    assert!(slice_board(&board, 3, 3, 0, 2).is_empty());
}

#[test]
fn repeated_extraction_gives_equal_sequences() {
    let board = example_board();
    assert_eq!(values_of(&get_row(&board, 4)), values_of(&get_row(&board, 4)));
    assert_eq!(values_of(&get_column(&board, 2)), values_of(&get_column(&board, 2)));
    assert_eq!(values_of(&get_cell(&board, 1, 2)), values_of(&get_cell(&board, 1, 2)));
    assert_eq!(
        values_of(&slice_board(&board, 2, 3, 4, 5)),
        values_of(&slice_board(&board, 2, 3, 4, 5))
    );
}

#[test]
fn board_from_values_places_each_value() {
    let mut values = [[0usize; 9]; 9];
    for r in 0..9 {
        for c in 0..9 {
            values[r][c] = r * 9 + c;
        }
    }
    let board: BoardType = board_from_values(&values);
    for r in 0..9 {
        for c in 0..9 {
            assert_eq!(board[r][c].current_value, r * 9 + c);
            assert_eq!(board[r][c].possible_values, vec![1, 2, 3, 4, 5, 6, 7, 8, 9]);
        }
    }
}
