use vstd::prelude::*;
use crate::grid::{in_bounds, index_of, lemma_index_in_grid, lemma_index_round_trip};
use crate::life::{alive_at, generations, live_neighbors, next_cells, rule};

verus! {

/// The row-major grid of `width` by `height` whose cell `(row, col)` is `f(row, col)`.
pub open spec fn pattern(width: int, height: int, f: spec_fn(int, int) -> bool) -> Seq<bool> {
    Seq::new((width * height) as nat, |i: int| f(i / width, i % width))
}

/// Every in-grid position has an in-grid index that decomposes back into it.
proof fn lemma_positions(width: int, height: int)
    ensures
        forall|r: int, c: int|
            in_bounds(width, height, r, c) ==> 0 <= #[trigger] index_of(c, r, width) < width
                * height && index_of(c, r, width) / width == r && index_of(c, r, width) % width
                == c,
{
    assert forall|r: int, c: int| in_bounds(width, height, r, c) implies 0 <= #[trigger] index_of(
        c,
        r,
        width,
    ) < width * height && index_of(c, r, width) / width == r && index_of(c, r, width) % width
        == c by {
        lemma_index_in_grid(width, height, r, c);
    }
}

/// In a pattern, a live neighbour is a neighbour inside the grid on which `f` holds.
proof fn lemma_pattern_alive_at(width: int, height: int, f: spec_fn(int, int) -> bool)
    requires
        width >= 1,
        height >= 1,
    ensures
        forall|r: int, c: int|
            #[trigger] alive_at(pattern(width, height, f), width, height, r, c) == if in_bounds(
                width,
                height,
                r,
                c,
            ) && f(r, c) {
                1int
            } else {
                0
            },
{
    lemma_positions(width, height);
}

/// One step of a pattern is the pattern of the rule applied at each position.
proof fn lemma_pattern_step(width: int, height: int, f: spec_fn(int, int) -> bool)
    requires
        width >= 1,
        height >= 1,
    ensures
        forall|i: int|
            0 <= i < width * height ==> #[trigger] next_cells(pattern(width, height, f), width, height)[i]
                == rule(
                f(i / width, i % width),
                live_neighbors(pattern(width, height, f), width, height, i / width, i % width),
            ),
        next_cells(pattern(width, height, f), width, height).len() == width * height,
{
    assert(width * height >= 1) by (nonlinear_arith)
        requires width >= 1, height >= 1;
}

/// A grid with every cell dead has no live neighbours anywhere.
proof fn lemma_dead_no_neighbors(cells: Seq<bool>, width: int, height: int, row: int, col: int)
    requires
        width >= 1,
        height >= 1,
        cells.len() == width * height,
        forall|j: int| 0 <= j < cells.len() ==> !#[trigger] cells[j],
    ensures
        live_neighbors(cells, width, height, row, col) == 0,
{
    lemma_positions(width, height);
}

/// No spontaneous life: a grid with every cell dead stays dead for any number of steps.
pub proof fn lemma_dead_stays_dead(cells: Seq<bool>, width: int, height: int, n: nat)
    requires
        width >= 1,
        height >= 1,
        cells.len() == width * height,
        forall|j: int| 0 <= j < cells.len() ==> !#[trigger] cells[j],
    ensures
        generations(cells, width, height, n).len() == cells.len(),
        forall|j: int|
            0 <= j < cells.len() ==> !#[trigger] generations(cells, width, height, n)[j],
    decreases n,
{
    if n > 0 {
        lemma_dead_stays_dead(cells, width, height, (n - 1) as nat);
        let prev = generations(cells, width, height, (n - 1) as nat);
        assert forall|j: int| 0 <= j < cells.len() implies !#[trigger] generations(
            cells,
            width,
            height,
            n,
        )[j] by {
            lemma_dead_no_neighbors(prev, width, height, j / width, j % width);
        }
    }
}

/// Underpopulation: on a grid whose only live cell is `i`, that cell has no live
/// neighbour and dies in one step, and no cell is born.
pub proof fn lemma_lone_cell_dies(cells: Seq<bool>, width: int, height: int, i: int)
    requires
        width >= 1,
        height >= 1,
        cells.len() == width * height,
        0 <= i < cells.len(),
        cells[i],
        forall|j: int| 0 <= j < cells.len() && j != i ==> !#[trigger] cells[j],
    ensures
        live_neighbors(cells, width, height, i / width, i % width) == 0,
        !next_cells(cells, width, height)[i],
        forall|j: int| 0 <= j < cells.len() ==> !#[trigger] next_cells(cells, width, height)[j],
{
    lemma_positions(width, height);
    lemma_index_round_trip(width, height, i);
    assert forall|j: int| 0 <= j < cells.len() implies !#[trigger] next_cells(
        cells,
        width,
        height,
    )[j] by {
        lemma_index_round_trip(width, height, j);
    }
}

/// The 2 by 2 block whose top-left cell is `(top, left)`.
pub open spec fn block(top: int, left: int) -> spec_fn(int, int) -> bool {
    |r: int, c: int| top <= r <= top + 1 && left <= c <= left + 1
}

/// A block lying inside the grid, all other cells dead, is a still life.
pub proof fn lemma_block_still(width: int, height: int, top: int, left: int)
    requires
        0 <= top,
        top + 1 < height,
        0 <= left,
        left + 1 < width,
    ensures
        next_cells(pattern(width, height, block(top, left)), width, height) == pattern(
            width,
            height,
            block(top, left),
        ),
{
    let f = block(top, left);
    let g = pattern(width, height, f);
    lemma_pattern_alive_at(width, height, f);
    lemma_pattern_step(width, height, f);
    assert forall|i: int| 0 <= i < width * height implies #[trigger] next_cells(g, width, height)[i]
        == g[i] by {
        lemma_index_round_trip(width, height, i);
    }
    assert(next_cells(g, width, height) =~= g);
}

/// A block stays unchanged for any number of steps.
pub proof fn lemma_block_stable(width: int, height: int, top: int, left: int, n: nat)
    requires
        0 <= top,
        top + 1 < height,
        0 <= left,
        left + 1 < width,
    ensures
        generations(pattern(width, height, block(top, left)), width, height, n) == pattern(
            width,
            height,
            block(top, left),
        ),
    decreases n,
{
    if n > 0 {
        lemma_block_stable(width, height, top, left, (n - 1) as nat);
        lemma_block_still(width, height, top, left);
    }
}

/// Three live cells in a row, centred on `(row, col)`.
pub open spec fn blinker_horizontal(row: int, col: int) -> spec_fn(int, int) -> bool {
    |r: int, c: int| r == row && col - 1 <= c <= col + 1
}

/// Three live cells in a column, centred on `(row, col)`.
pub open spec fn blinker_vertical(row: int, col: int) -> spec_fn(int, int) -> bool {
    |r: int, c: int| c == col && row - 1 <= r <= row + 1
}

proof fn lemma_blinker_turns(width: int, height: int, row: int, col: int)
    requires
        0 < row < height - 1,
        0 < col < width - 1,
    ensures
        next_cells(pattern(width, height, blinker_horizontal(row, col)), width, height)
            == pattern(width, height, blinker_vertical(row, col)),
        next_cells(pattern(width, height, blinker_vertical(row, col)), width, height)
            == pattern(width, height, blinker_horizontal(row, col)),
{
    let h = blinker_horizontal(row, col);
    let v = blinker_vertical(row, col);
    lemma_pattern_alive_at(width, height, h);
    lemma_pattern_step(width, height, h);
    lemma_pattern_alive_at(width, height, v);
    lemma_pattern_step(width, height, v);
    assert forall|i: int| 0 <= i < width * height implies #[trigger] next_cells(
        pattern(width, height, h),
        width,
        height,
    )[i] == pattern(width, height, v)[i] && next_cells(pattern(width, height, v), width, height)[i]
        == pattern(width, height, h)[i] by {
        lemma_index_round_trip(width, height, i);
    }
    assert(next_cells(pattern(width, height, h), width, height) =~= pattern(width, height, v));
    assert(next_cells(pattern(width, height, v), width, height) =~= pattern(width, height, h));
}

/// A blinker with a dead margin of one cell on every side toggles between its
/// horizontal and vertical forms each step, the two forms differ, and it is back
/// in its original form after exactly 2 steps.
pub proof fn lemma_blinker_oscillates(width: int, height: int, row: int, col: int)
    requires
        0 < row < height - 1,
        0 < col < width - 1,
    ensures
        generations(pattern(width, height, blinker_horizontal(row, col)), width, height, 1)
            == pattern(width, height, blinker_vertical(row, col)),
        generations(pattern(width, height, blinker_vertical(row, col)), width, height, 1)
            == pattern(width, height, blinker_horizontal(row, col)),
        pattern(width, height, blinker_horizontal(row, col)) != pattern(
            width,
            height,
            blinker_vertical(row, col),
        ),
        generations(pattern(width, height, blinker_horizontal(row, col)), width, height, 2)
            == pattern(width, height, blinker_horizontal(row, col)),
        generations(pattern(width, height, blinker_vertical(row, col)), width, height, 2)
            == pattern(width, height, blinker_vertical(row, col)),
{
    let h = blinker_horizontal(row, col);
    let v = blinker_vertical(row, col);
    lemma_blinker_turns(width, height, row, col);
    assert(generations(pattern(width, height, h), width, height, 0) == pattern(width, height, h));
    assert(generations(pattern(width, height, v), width, height, 0) == pattern(width, height, v));
    assert(generations(pattern(width, height, h), width, height, 1) == pattern(width, height, v));
    assert(generations(pattern(width, height, v), width, height, 1) == pattern(width, height, h));
    let i = index_of(col - 1, row, width);
    lemma_index_in_grid(width, height, row, col - 1);
    assert(pattern(width, height, h)[i] != pattern(width, height, v)[i]);
}

/// The step depends on the snapshot alone: equal grids give equal next generations.
pub proof fn lemma_step_deterministic(a: Seq<bool>, b: Seq<bool>, width: int, height: int)
    requires
        a == b,
    ensures
        next_cells(a, width, height) == next_cells(b, width, height),
{
}

} // verus!
