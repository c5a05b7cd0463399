use vstd::prelude::*;

verus! {

/// Flat index of the cell in column `x` and row `y` of a grid `width` wide.
pub open spec fn index_of(x: int, y: int, width: int) -> int {
    y * width + x
}

/// Whether `(row, col)` lies inside a `width` by `height` grid.
pub open spec fn in_bounds(width: int, height: int, row: int, col: int) -> bool {
    0 <= row < height && 0 <= col < width
}

/// Whether `width` and `height` describe a non-empty grid whose cells can be counted in a `usize`.
pub open spec fn valid_dims(width: int, height: int) -> bool {
    width >= 1 && height >= 1 && width * height <= usize::MAX
}

/// Round trip: the coordinates of an index map back to that index, and lie in the grid.
pub proof fn lemma_index_round_trip(width: int, height: int, i: int)
    requires
        width >= 1,
        height >= 1,
        0 <= i < width * height,
    ensures
        index_of(i % width, i / width, width) == i,
        in_bounds(width, height, i / width, i % width),
{
    assert(i / width < height) by (nonlinear_arith)
        requires width >= 1, 0 <= i < width * height;
    assert(0 <= i / width) by (nonlinear_arith)
        requires width >= 1, 0 <= i;
    assert((i / width) * width + i % width == i) by (nonlinear_arith)
        requires width >= 1;
    assert(0 <= i % width < width) by (nonlinear_arith)
        requires width >= 1;
}

/// An in-bounds position has an index below `width * height`, and decomposes back into itself.
pub proof fn lemma_index_in_grid(width: int, height: int, row: int, col: int)
    requires
        in_bounds(width, height, row, col),
    ensures
        0 <= index_of(col, row, width) < width * height,
        index_of(col, row, width) / width == row,
        index_of(col, row, width) % width == col,
{
    assert(0 <= row * width + col < width * height) by (nonlinear_arith)
        requires 0 <= row < height, 0 <= col < width;
    assert((row * width + col) / width == row) by (nonlinear_arith)
        requires 0 <= row, 0 <= col < width;
    assert((row * width + col) % width == col) by (nonlinear_arith)
        requires 0 <= row, 0 <= col < width;
}

/// Flat index of column `x`, row `y` (row-major layout).
pub fn get_index_by_xy(x: usize, y: usize, width: usize, height: usize) -> (r: usize)
    requires
        x < width,
        y < height,
        valid_dims(width as int, height as int),
    ensures
        r == index_of(x as int, y as int, width as int),
        r < width * height,
{
    proof {
        lemma_index_in_grid(width as int, height as int, y as int, x as int);
    }
    y * width + x
}

/// The index of `(row, col)` as a one-element sequence when it lies in the grid, else nothing.
pub open spec fn neighbor_at(width: int, height: int, row: int, col: int) -> Seq<int> {
    if in_bounds(width, height, row, col) {
        seq![index_of(col, row, width)]
    } else {
        Seq::empty()
    }
}

/// The in-grid Moore neighbours of `(row, col)`, in direction order
/// NW, N, NE, W, E, SW, S, SE.
pub open spec fn neighbor_seq(width: int, height: int, row: int, col: int) -> Seq<int> {
    neighbor_at(width, height, row - 1, col - 1)
        + neighbor_at(width, height, row - 1, col)
        + neighbor_at(width, height, row - 1, col + 1)
        + neighbor_at(width, height, row, col - 1)
        + neighbor_at(width, height, row, col + 1)
        + neighbor_at(width, height, row + 1, col - 1)
        + neighbor_at(width, height, row + 1, col)
        + neighbor_at(width, height, row + 1, col + 1)
}

/// The number of in-grid neighbours of `(row, col)`.
pub open spec fn neighbor_count(width: int, height: int, row: int, col: int) -> int {
    neighbor_seq(width, height, row, col).len() as int
}

/// Whether `(row, col)` is one of the four corners.
pub open spec fn is_corner(width: int, height: int, row: int, col: int) -> bool {
    (row == 0 || row == height - 1) && (col == 0 || col == width - 1)
}

/// Whether `(row, col)` is on the border but not a corner.
pub open spec fn is_edge(width: int, height: int, row: int, col: int) -> bool {
    (row == 0 || row == height - 1 || col == 0 || col == width - 1)
        && !is_corner(width, height, row, col)
}

/// Whether `(row, col)` is away from every border.
pub open spec fn is_interior(width: int, height: int, row: int, col: int) -> bool {
    0 < row < height - 1 && 0 < col < width - 1
}

/// Interior cells have exactly 8 neighbours; on a grid at least 2 by 2,
/// border cells that are not corners have 5 and corners have 3.
pub proof fn lemma_neighbor_counts(width: int, height: int, row: int, col: int)
    requires
        in_bounds(width, height, row, col),
    ensures
        is_interior(width, height, row, col) ==> neighbor_count(width, height, row, col) == 8,
        width >= 2 && height >= 2 && is_edge(width, height, row, col) ==> neighbor_count(
            width,
            height,
            row,
            col,
        ) == 5,
        width >= 2 && height >= 2 && is_corner(width, height, row, col) ==> neighbor_count(
            width,
            height,
            row,
            col,
        ) == 3,
{
}

/// Whether every element of `s` lies in `[0, n)`.
pub open spec fn all_below(s: Seq<int>, n: int) -> bool {
    forall|k: int| 0 <= k < s.len() ==> 0 <= #[trigger] s[k] < n
}

proof fn lemma_all_below_concat(a: Seq<int>, b: Seq<int>, n: int)
    requires
        all_below(a, n),
        all_below(b, n),
    ensures
        all_below(a + b, n),
{
    assert forall|k: int| 0 <= k < (a + b).len() implies 0 <= #[trigger] (a + b)[k] < n by {
        if k >= a.len() {
            assert((a + b)[k] == b[k - a.len()]);
        }
    }
}

proof fn lemma_neighbor_at_in_grid(width: int, height: int, row: int, col: int)
    ensures
        all_below(neighbor_at(width, height, row, col), width * height),
{
    if in_bounds(width, height, row, col) {
        lemma_index_in_grid(width, height, row, col);
    }
}

/// Every neighbour index lies in the grid.
pub proof fn lemma_neighbors_in_grid(width: int, height: int, row: int, col: int)
    ensures
        all_below(neighbor_seq(width, height, row, col), width * height),
{
    let n = width * height;
    lemma_neighbor_at_in_grid(width, height, row - 1, col - 1);
    lemma_neighbor_at_in_grid(width, height, row - 1, col);
    lemma_neighbor_at_in_grid(width, height, row - 1, col + 1);
    lemma_neighbor_at_in_grid(width, height, row, col - 1);
    lemma_neighbor_at_in_grid(width, height, row, col + 1);
    lemma_neighbor_at_in_grid(width, height, row + 1, col - 1);
    lemma_neighbor_at_in_grid(width, height, row + 1, col);
    lemma_neighbor_at_in_grid(width, height, row + 1, col + 1);
    let s1 = neighbor_at(width, height, row - 1, col - 1);
    let s2 = s1 + neighbor_at(width, height, row - 1, col);
    lemma_all_below_concat(s1, neighbor_at(width, height, row - 1, col), n);
    let s3 = s2 + neighbor_at(width, height, row - 1, col + 1);
    lemma_all_below_concat(s2, neighbor_at(width, height, row - 1, col + 1), n);
    let s4 = s3 + neighbor_at(width, height, row, col - 1);
    lemma_all_below_concat(s3, neighbor_at(width, height, row, col - 1), n);
    let s5 = s4 + neighbor_at(width, height, row, col + 1);
    lemma_all_below_concat(s4, neighbor_at(width, height, row, col + 1), n);
    let s6 = s5 + neighbor_at(width, height, row + 1, col - 1);
    lemma_all_below_concat(s5, neighbor_at(width, height, row + 1, col - 1), n);
    let s7 = s6 + neighbor_at(width, height, row + 1, col);
    lemma_all_below_concat(s6, neighbor_at(width, height, row + 1, col), n);
    lemma_all_below_concat(s7, neighbor_at(width, height, row + 1, col + 1), n);
}

/// Appends the index of `(row + dr, col + dc)` when that position lies in the grid.
fn push_neighbor(
    out: &mut Vec<usize>,
    width: usize,
    height: usize,
    row: usize,
    col: usize,
    dr: i8,
    dc: i8,
)
    requires
        valid_dims(width as int, height as int),
        row < height,
        col < width,
        -1 <= dr <= 1,
        -1 <= dc <= 1,
    ensures
        final(out)@.map_values(|j: usize| j as int) == old(out)@.map_values(|j: usize| j as int)
            + neighbor_at(width as int, height as int, row + dr, col + dc),
{
    let ghost before = out@;
    let row_ok = (dr >= 0 || row > 0) && (dr <= 0 || row + 1 < height);
    let col_ok = (dc >= 0 || col > 0) && (dc <= 0 || col + 1 < width);
    if row_ok && col_ok {
        let new_row: usize = if dr < 0 { row - 1 } else if dr > 0 { row + 1 } else { row };
        let new_col: usize = if dc < 0 { col - 1 } else if dc > 0 { col + 1 } else { col };
        let index = get_index_by_xy(new_col, new_row, width, height);
        out.push(index);
    }
    assert(out@.map_values(|j: usize| j as int) =~= before.map_values(|j: usize| j as int)
        + neighbor_at(width as int, height as int, row + dr, col + dc));
}

/// The indices of the in-grid Moore neighbours of cell `index`, in the fixed
/// direction order NW, N, NE, W, E, SW, S, SE; no wrap-around at the borders.
pub fn get_neighbors(index: usize, width: usize, height: usize) -> (r: Vec<usize>)
    requires
        valid_dims(width as int, height as int),
        index < width * height,
    ensures
        r@.map_values(|j: usize| j as int) == neighbor_seq(
            width as int,
            height as int,
            index as int / width as int,
            index as int % width as int,
        ),
{
    proof {
        lemma_index_round_trip(width as int, height as int, index as int);
    }
    let row = index / width;
    let col = index % width;
    let mut out: Vec<usize> = Vec::new();
    push_neighbor(&mut out, width, height, row, col, -1, -1);
    push_neighbor(&mut out, width, height, row, col, -1, 0);
    push_neighbor(&mut out, width, height, row, col, -1, 1);
    push_neighbor(&mut out, width, height, row, col, 0, -1);
    push_neighbor(&mut out, width, height, row, col, 0, 1);
    push_neighbor(&mut out, width, height, row, col, 1, -1);
    push_neighbor(&mut out, width, height, row, col, 1, 0);
    push_neighbor(&mut out, width, height, row, col, 1, 1);
    assert(out@.map_values(|j: usize| j as int) =~= neighbor_seq(
        width as int,
        height as int,
        row as int,
        col as int,
    ));
    out
}

} // verus!
