use vstd::prelude::*;

verus! {

/// `value`, but at least 1.
pub open spec fn at_least_one(value: int) -> int {
    if value < 1 { 1 } else { value }
}

/// The frame indices shown in row `row` of a grid with `cols` columns over
/// `frame_count` frames: `row * cols + col` for each column, stopping at the
/// first index that is not a frame.
pub open spec fn grid_row_cells(row: int, cols: int, frame_count: int) -> Seq<usize> {
    let first = row * cols;
    let shown = if frame_count - first < 0 {
        0
    } else if frame_count - first < cols {
        frame_count - first
    } else {
        cols
    };
    Seq::new(shown as nat, |col: int| (first + col) as usize)
}

/// The thumbnails of the frame grid, row by row: a grid of `grid_rows` rows of
/// `grid_cols` cells (each at least 1), cell `(row, col)` showing frame
/// `row * cols + col`, and each row ending at the last existing frame.
pub fn frame_grid_layout(grid_rows: usize, grid_cols: usize, frame_count: usize) -> (rows: Vec<Vec<usize>>)
    requires
        grid_rows <= 1 || (grid_rows - 1) * grid_cols <= usize::MAX,
    ensures
        rows@.len() == at_least_one(grid_rows as int),
        forall|r: int|
            0 <= r < rows@.len() ==> (#[trigger] rows@[r])@ == grid_row_cells(
                r,
                at_least_one(grid_cols as int),
                frame_count as int,
            ),
{
    let row_count = if grid_rows < 1 { 1 } else { grid_rows };
    let cols = if grid_cols < 1 { 1 } else { grid_cols };
    assert((row_count - 1) * cols <= usize::MAX) by (nonlinear_arith)
        requires
            row_count == at_least_one(grid_rows as int),
            cols == at_least_one(grid_cols as int),
            grid_rows <= 1 || (grid_rows - 1) * grid_cols <= usize::MAX,
    ;
    let mut rows: Vec<Vec<usize>> = Vec::new();
    let mut row: usize = 0;
    let mut first: usize = 0;
    while row < row_count
        invariant
            row_count == at_least_one(grid_rows as int),
            cols == at_least_one(grid_cols as int),
            (row_count - 1) * cols <= usize::MAX,
            row <= row_count,
            row < row_count ==> first == row * cols,
            rows@.len() == row,
            forall|r: int| 0 <= r < row ==> (#[trigger] rows@[r])@ == grid_row_cells(r, cols as int, frame_count as int),
        decreases row_count - row,
    {
        let mut cells: Vec<usize> = Vec::new();
        let mut col: usize = 0;
        while col < cols && first + col < frame_count
            invariant
                first == row * cols,
                col <= cols,
                first + col <= frame_count || col == 0,
                cells@ == grid_row_cells(row as int, cols as int, frame_count as int).take(col as int),
                col < cols && first + col < frame_count ==> col < grid_row_cells(row as int, cols as int, frame_count as int).len(),
            decreases cols - col,
        {
            cells.push(first + col);
            col = col + 1;
        }
        assert(cells@ == grid_row_cells(row as int, cols as int, frame_count as int));
        rows.push(cells);
        row = row + 1;
        if row < row_count {
            assert(first + cols == row * cols) by (nonlinear_arith)
                requires
                    first == (row - 1) * cols,
            ;
            assert(row * cols <= (row_count - 1) * cols) by (nonlinear_arith)
                requires
                    row <= row_count - 1,
                    cols >= 1,
            ;
            first = first + cols;
        }
    }
    rows
}

} // verus!

verus! {

/// Each grid row lists consecutive existing frames: cell `col` of row `row` is
/// frame `row * cols + col`, a row has at most `cols` cells, and a row is cut
/// short only where the frames run out.
pub proof fn law_grid_rows(row: int, cols: int, frame_count: int)
    requires
        0 <= row,
        1 <= cols,
        0 <= frame_count <= usize::MAX,
    ensures
        grid_row_cells(row, cols, frame_count).len() <= cols,
        grid_row_cells(row, cols, frame_count).len() == cols || row * cols
            + grid_row_cells(row, cols, frame_count).len() >= frame_count,
        forall|col: int|
            0 <= col < grid_row_cells(row, cols, frame_count).len() ==> {
                &&& #[trigger] grid_row_cells(row, cols, frame_count)[col] == row * cols + col
                &&& row * cols + col < frame_count
            },
{
    assert(row * cols >= 0) by (nonlinear_arith)
        requires
            0 <= row,
            1 <= cols,
    ;
}

} // verus!
