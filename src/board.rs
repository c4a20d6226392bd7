use vstd::prelude::*;
use vstd::arithmetic::div_mod::lemma_fundamental_div_mod_converse;
use crate::cell::{Cell, initial_candidates};

verus! {

/// A board: nine rows of nine cells, never resized.
pub type BoardType = [[Cell; 9]; 9];

/// The cell at row `r`, column `c`.
pub open spec fn cell_at(board: BoardType, r: int, c: int) -> Cell {
    board@[r]@[c]
}

/// The cells of the rectangle of `height` rows and `width` columns whose top
/// left corner is (`start_row`, `start_col`), in row-major order.
pub open spec fn region(board: BoardType, start_row: int, start_col: int, width: int, height: int) -> Seq<Cell> {
    Seq::new(
        (width * height) as nat,
        |k: int| cell_at(board, start_row + k / width, start_col + k % width),
    )
}

/// Whether the rectangle lies inside the board.
pub open spec fn region_in_bounds(start_row: int, start_col: int, width: int, height: int) -> bool {
    0 <= start_row && 0 <= start_col && 0 <= width && 0 <= height
        && start_row + height <= 9 && start_col + width <= 9
}

/// The cells that a sequence of references points to.
pub open spec fn deref_cells(s: Seq<&Cell>) -> Seq<Cell> {
    Seq::new(s.len(), |k: int| *s[k])
}

/// The cells of a rectangle of the board, in row-major order: all of row
/// `starting_row` from left to right, then the next row, and so on.
pub fn slice_board(
    board: &BoardType,
    starting_row: usize,
    starting_column: usize,
    width: usize,
    height: usize,
) -> (r: Vec<&Cell>)
    requires
        region_in_bounds(starting_row as int, starting_column as int, width as int, height as int),
    ensures
        deref_cells(r@) == region(*board, starting_row as int, starting_column as int, width as int, height as int),
{
    let mut r: Vec<&Cell> = Vec::new();
    let mut i: usize = 0;
    while i < height
        invariant
            region_in_bounds(starting_row as int, starting_column as int, width as int, height as int),
            0 <= i <= height,
            r@.len() == i * width,
            forall|k: int| 0 <= k < r@.len() ==> *r@[k] == cell_at(*board,
                starting_row + k / (width as int), starting_column + k % (width as int)),
        decreases height - i,
    {
        let row = &board[starting_row + i];
        let mut j: usize = 0;
        while j < width
            invariant
                region_in_bounds(starting_row as int, starting_column as int, width as int, height as int),
                0 <= i < height,
                0 <= j <= width,
                *row == board@[starting_row + i],
                r@.len() == i * width + j,
                forall|k: int| 0 <= k < r@.len() ==> *r@[k] == cell_at(*board,
                    starting_row + k / (width as int), starting_column + k % (width as int)),
            decreases width - j,
        {
            proof {
                lemma_fundamental_div_mod_converse(
                    (i * width + j) as int, width as int, i as int, j as int);
            }
            r.push(&row[starting_column + j]);
            j = j + 1;
        }
        proof {
            assert((i + 1) * width == i * width + width) by (nonlinear_arith);
        }
        i = i + 1;
    }
    proof {
        assert(height * width == width * height) by (nonlinear_arith);
    }
    assert(deref_cells(r@) =~= region(*board, starting_row as int, starting_column as int, width as int, height as int));
    r
}

/// Row `i`, from left to right.
pub open spec fn row_cells(board: BoardType, i: int) -> Seq<Cell> {
    Seq::new(9, |j: int| cell_at(board, i, j))
}

/// Column `j`, from top to bottom.
pub open spec fn column_cells(board: BoardType, j: int) -> Seq<Cell> {
    Seq::new(9, |i: int| cell_at(board, i, j))
}

/// The 3x3 box in box row `box_row` and box column `box_col` (each in 0..3),
/// in row-major order.
pub open spec fn box_cells(board: BoardType, box_row: int, box_col: int) -> Seq<Cell> {
    Seq::new(9, |k: int| cell_at(board, 3 * box_row + k / 3, 3 * box_col + k % 3))
}

/// Row `row` of the board, from left to right.
pub fn get_row(board: &BoardType, row: usize) -> (r: Vec<&Cell>)
    requires
        row < 9,
    ensures
        deref_cells(r@) == row_cells(*board, row as int),
{
    let r = slice_board(board, row, 0, 9, 1);
    assert(deref_cells(r@) =~= row_cells(*board, row as int));
    r
}

/// Column `column` of the board, from top to bottom.
pub fn get_column(board: &BoardType, column: usize) -> (r: Vec<&Cell>)
    requires
        column < 9,
    ensures
        deref_cells(r@) == column_cells(*board, column as int),
{
    let r = slice_board(board, 0, column, 1, 9);
    assert(deref_cells(r@) =~= column_cells(*board, column as int));
    r
}

/// The 3x3 window whose top left cell is (`start_y`, `start_x`), at any
/// offset, in row-major order.
pub fn get_3x3(board: &BoardType, start_y: usize, start_x: usize) -> (r: Vec<&Cell>)
    requires
        start_y + 3 <= 9,
        start_x + 3 <= 9,
    ensures
        deref_cells(r@) == region(*board, start_y as int, start_x as int, 3, 3),
{
    slice_board(board, start_y, start_x, 3, 3)
}

/// The Sudoku box in box row `cell_y` and box column `cell_x`, in row-major
/// order.
pub fn get_cell(board: &BoardType, cell_y: usize, cell_x: usize) -> (r: Vec<&Cell>)
    requires
        cell_y < 3,
        cell_x < 3,
    ensures
        deref_cells(r@) == box_cells(*board, cell_y as int, cell_x as int),
{
    let r = get_3x3(board, cell_y * 3, cell_x * 3);
    assert(deref_cells(r@) =~= box_cells(*board, cell_y as int, cell_x as int));
    r
}

/// The whole board taken as one rectangle is the board flattened in
/// row-major order, and a rectangle of one cell is that cell alone.
pub proof fn lemma_slice_whole_and_single(board: BoardType, row: int, col: int)
    requires
        0 <= row < 9,
        0 <= col < 9,
    ensures
        region(board, 0, 0, 9, 9).len() == 81,
        forall|r: int, c: int| 0 <= r < 9 && 0 <= c < 9
            ==> #[trigger] region(board, 0, 0, 9, 9)[9 * r + c] == cell_at(board, r, c),
        region(board, row, col, 1, 1) == seq![cell_at(board, row, col)],
{
    assert forall|r: int, c: int| 0 <= r < 9 && 0 <= c < 9
        implies #[trigger] region(board, 0, 0, 9, 9)[9 * r + c] == cell_at(board, r, c) by {
        lemma_fundamental_div_mod_converse(9 * r + c, 9, r, c);
    }
    assert(region(board, row, col, 1, 1) =~= seq![cell_at(board, row, col)]);
}

/// Extracting the same rectangle twice from an unchanged board gives equal
/// sequences of cells.
pub proof fn lemma_slice_repeatable(
    board: BoardType,
    start_row: int,
    start_col: int,
    width: int,
    height: int,
    first: Seq<&Cell>,
    second: Seq<&Cell>,
)
    requires
        deref_cells(first) == region(board, start_row, start_col, width, height),
        deref_cells(second) == region(board, start_row, start_col, width, height),
    ensures
        first.len() == second.len(),
        forall|k: int| 0 <= k < first.len() ==> *first[k] == *second[k],
{
    assert(first.len() == deref_cells(first).len());
    assert(second.len() == deref_cells(second).len());
    assert forall|k: int| 0 <= k < first.len() implies *first[k] == *second[k] by {
        assert(deref_cells(first)[k] == *first[k]);
        assert(deref_cells(second)[k] == *second[k]);
        assert(deref_cells(first)[k] == deref_cells(second)[k]);
    }
}

/// Each cell of the board holds the value at the same place in `values`,
/// and the full candidate list.
pub open spec fn filled_from(board: BoardType, values: Seq<Seq<usize>>) -> bool {
    forall|r: int, c: int| 0 <= r < 9 && 0 <= c < 9 ==> {
        &&& #[trigger] cell_at(board, r, c).current_value == values[r][c]
        &&& cell_at(board, r, c).possible_values@ == initial_candidates()
    }
}

/// The values of a 9x9 array as nested sequences.
pub open spec fn grid_values(values: [[usize; 9]; 9]) -> Seq<Seq<usize>> {
    Seq::new(9, |r: int| values@[r]@)
}

/// A row of fresh cells holding the given values.
fn cell_row(values: &[usize; 9]) -> (r: [Cell; 9])
    ensures
        forall|c: int| 0 <= c < 9 ==> {
            &&& (#[trigger] r@[c]).current_value == values@[c]
            &&& r@[c].possible_values@ == initial_candidates()
        },
{
    [
        Cell::with_value(values[0]),
        Cell::with_value(values[1]),
        Cell::with_value(values[2]),
        Cell::with_value(values[3]),
        Cell::with_value(values[4]),
        Cell::with_value(values[5]),
        Cell::with_value(values[6]),
        Cell::with_value(values[7]),
        Cell::with_value(values[8]),
    ]
}

/// A board whose cells hold `values`, given row by row, each cell with the
/// full candidate list.
pub fn board_from_values(values: &[[usize; 9]; 9]) -> (board: BoardType)
    ensures
        filled_from(board, grid_values(*values)),
{
    [
        cell_row(&values[0]),
        cell_row(&values[1]),
        cell_row(&values[2]),
        cell_row(&values[3]),
        cell_row(&values[4]),
        cell_row(&values[5]),
        cell_row(&values[6]),
        cell_row(&values[7]),
        cell_row(&values[8]),
    ]
}

/// The values of the example board, row by row.
pub open spec fn example_grid() -> Seq<Seq<usize>> {
    seq![
        seq![7usize, 9, 2, 1, 5, 4, 3, 8, 6],
        seq![6usize, 4, 3, 8, 2, 7, 1, 5, 9],
        seq![8usize, 5, 1, 3, 9, 6, 7, 2, 4],
        seq![2usize, 6, 5, 9, 7, 3, 8, 4, 1],
        seq![4usize, 8, 9, 5, 6, 1, 2, 7, 3],
        seq![3usize, 1, 7, 4, 8, 2, 9, 6, 5],
        seq![1usize, 3, 6, 7, 4, 8, 5, 9, 2],
        seq![9usize, 7, 4, 2, 1, 5, 6, 3, 8],
        seq![5usize, 2, 8, 6, 3, 9, 4, 1, 7],
    ]
}

/// A fixed, correctly solved board.
pub fn example_board() -> (board: BoardType)
    ensures
        filled_from(board, example_grid()),
{
    let matrix: [[usize; 9]; 9] = [
        [7, 9, 2, 1, 5, 4, 3, 8, 6],
        [6, 4, 3, 8, 2, 7, 1, 5, 9],
        [8, 5, 1, 3, 9, 6, 7, 2, 4],
        [2, 6, 5, 9, 7, 3, 8, 4, 1],
        [4, 8, 9, 5, 6, 1, 2, 7, 3],
        [3, 1, 7, 4, 8, 2, 9, 6, 5],
        [1, 3, 6, 7, 4, 8, 5, 9, 2],
        [9, 7, 4, 2, 1, 5, 6, 3, 8],
        [5, 2, 8, 6, 3, 9, 4, 1, 7],
    ];
    assert(grid_values(matrix) =~= example_grid()) by {
        assert forall|r: int| 0 <= r < 9 implies grid_values(matrix)[r] =~= example_grid()[r] by {}
    }
    board_from_values(&matrix)
}

} // verus!
