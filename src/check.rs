use vstd::prelude::*;
use std::collections::HashSet;
use crate::cell::Cell;
use crate::board::{
    BoardType, deref_cells, row_cells, column_cells, box_cells, get_row, get_column, get_cell,
};

verus! {

broadcast use vstd::std_specs::hash::group_hash_axioms;

/// No two cells of `s` hold the same current value.
pub open spec fn all_distinct(s: Seq<Cell>) -> bool {
    forall|i: int, j: int| 0 <= i < j < s.len() ==> s[i].current_value != s[j].current_value
}

/// Every row and every column of the board is free of repeated values.
pub open spec fn rows_and_columns_distinct(board: BoardType) -> bool {
    &&& forall|i: int| 0 <= i < 9 ==> #[trigger] all_distinct(row_cells(board, i))
    &&& forall|j: int| 0 <= j < 9 ==> #[trigger] all_distinct(column_cells(board, j))
}

/// Every one of the nine 3x3 boxes is free of repeated values.
pub open spec fn boxes_distinct(board: BoardType) -> bool {
    forall|br: int, bc: int| 0 <= br < 3 && 0 <= bc < 3 ==> #[trigger] all_distinct(box_cells(board, br, bc))
}

/// A solved board: each row, column and box holds no value twice.
pub open spec fn valid_board(board: BoardType) -> bool {
    rows_and_columns_distinct(board) && boxes_distinct(board)
}

/// Whether the cells hold pairwise distinct values. Each value is added to a
/// set; an insertion that finds its value already there means a repeat.
pub fn check_uniqueness(numbers: &Vec<&Cell>) -> (r: bool)
    ensures
        r == all_distinct(deref_cells(numbers@)),
{
    let ghost cells = deref_cells(numbers@);
    let mut seen: HashSet<usize> = HashSet::new();
    let mut i: usize = 0;
    while i < numbers.len()
        invariant
            cells == deref_cells(numbers@),
            0 <= i <= numbers@.len(),
            all_distinct(cells.subrange(0, i as int)),
            forall|v: usize| #[trigger] seen@.contains(v)
                <==> exists|k: int| 0 <= k < i && cells[k].current_value == v,
        decreases numbers@.len() - i,
    {
        let v = numbers[i].current_value;
        assert(cells[i as int].current_value == v);
        let ghost before = seen@;
        if !seen.insert(v) {
            let ghost k = choose|k: int| 0 <= k < i && cells[k].current_value == v;
            assert(cells[k].current_value == cells[i as int].current_value);
            return false;
        }
        let ghost prefix = cells.subrange(0, i + 1);
        assert forall|a: int, b: int| 0 <= a < b < i + 1 implies
            #[trigger] prefix[a].current_value != #[trigger] prefix[b].current_value by {
            assert(prefix[a] == cells[a]);
            assert(prefix[b] == cells[b]);
            if b < i {
                assert(cells.subrange(0, i as int)[a] == cells[a]);
                assert(cells.subrange(0, i as int)[b] == cells[b]);
            } else if cells[a].current_value == v {
                assert(before.contains(v));
            }
        }
        i = i + 1;
        assert forall|w: usize| #[trigger] seen@.contains(w)
            implies exists|k: int| 0 <= k < i && cells[k].current_value == w by {
            if w == v {
                assert(cells[i - 1].current_value == w);
            }
        }
    }
    assert(cells.subrange(0, i as int) =~= cells);
    true
}

/// Whether every row and every column holds no value twice; row `x` and
/// column `x` are checked together, for `x` from 0 to 8.
pub fn check_rows_and_cols(board: &BoardType) -> (r: bool)
    ensures
        r == rows_and_columns_distinct(*board),
{
    let mut x: usize = 0;
    while x < 9
        invariant
            0 <= x <= 9,
            forall|i: int| 0 <= i < x ==> #[trigger] all_distinct(row_cells(*board, i)),
            forall|j: int| 0 <= j < x ==> #[trigger] all_distinct(column_cells(*board, j)),
        decreases 9 - x,
    {
        let row_ok = check_uniqueness(&get_row(board, x));
        if !row_ok {
            return false;
        }
        let column_ok = check_uniqueness(&get_column(board, x));
        if !column_ok {
            return false;
        }
        x = x + 1;
    }
    true
}

/// Whether each of the nine 3x3 boxes holds no value twice, visiting the
/// boxes in row-major order and stopping at the first that fails.
pub fn check_cells(board: &BoardType) -> (r: bool)
    ensures
        r == boxes_distinct(*board),
{
    let mut i: usize = 0;
    while i < 3
        invariant
            0 <= i <= 3,
            forall|br: int, bc: int| 0 <= br < i && 0 <= bc < 3
                ==> #[trigger] all_distinct(box_cells(*board, br, bc)),
        decreases 3 - i,
    {
        let mut j: usize = 0;
        while j < 3
            invariant
                0 <= i < 3,
                0 <= j <= 3,
                forall|br: int, bc: int| 0 <= br < i && 0 <= bc < 3
                    ==> #[trigger] all_distinct(box_cells(*board, br, bc)),
                forall|bc: int| 0 <= bc < j ==> #[trigger] all_distinct(box_cells(*board, i as int, bc)),
            decreases 3 - j,
        {
            if !check_uniqueness(&get_cell(board, i, j)) {
                return false;
            }
            j = j + 1;
        }
        i = i + 1;
    }
    true
}

/// Whether the board is a solved Sudoku: every row, column and box holds
/// each of its values once.
pub fn check_board(board: &BoardType) -> (r: bool)
    ensures
        r == valid_board(*board),
{
    check_rows_and_cols(board) && check_cells(board)
}

} // verus!
