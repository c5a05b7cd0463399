use vstd::prelude::*;
use crate::grid::{
    all_below, get_neighbors, in_bounds, index_of, lemma_neighbors_in_grid, neighbor_at,
    neighbor_seq, valid_dims,
};

verus! {

/// One cell of the board; its position is its offset in the board's storage.
#[derive(Clone, Copy, Debug, PartialEq, Eq, Structural)]
pub struct Cell {
    pub is_alive: bool,
}

impl Cell {
    pub fn new(is_alive: bool) -> (r: Cell)
        ensures
            r.is_alive == is_alive,
    {
        Cell { is_alive }
    }

    pub fn make_alive(&mut self)
        ensures
            final(self).is_alive,
    {
        self.is_alive = true;
    }

    pub fn make_dead(&mut self)
        ensures
            !final(self).is_alive,
    {
        self.is_alive = false;
    }
}

/// The alive flags of a row of cells.
pub open spec fn alive_cells(cells: Seq<Cell>) -> Seq<bool> {
    cells.map_values(|c: Cell| c.is_alive)
}

/// 1 when `(row, col)` is in the grid and alive, else 0.
pub open spec fn alive_at(cells: Seq<bool>, width: int, height: int, row: int, col: int) -> int {
    if in_bounds(width, height, row, col) && cells[index_of(col, row, width)] {
        1
    } else {
        0
    }
}

/// The number of live cells among the Moore neighbours of `(row, col)`.
pub open spec fn live_neighbors(
    cells: Seq<bool>,
    width: int,
    height: int,
    row: int,
    col: int,
) -> int {
    alive_at(cells, width, height, row - 1, col - 1) + alive_at(cells, width, height, row - 1, col)
        + alive_at(cells, width, height, row - 1, col + 1) + alive_at(
        cells,
        width,
        height,
        row,
        col - 1,
    ) + alive_at(cells, width, height, row, col + 1) + alive_at(
        cells,
        width,
        height,
        row + 1,
        col - 1,
    ) + alive_at(cells, width, height, row + 1, col) + alive_at(
        cells,
        width,
        height,
        row + 1,
        col + 1,
    )
}

/// The B3/S23 rule: a live cell survives with 2 or 3 live neighbours, a dead one
/// comes alive with exactly 3.
pub open spec fn rule(alive: bool, live: int) -> bool {
    if alive {
        live == 2 || live == 3
    } else {
        live == 3
    }
}

/// The next generation: every cell follows the rule, reading only `cells`.
pub open spec fn next_cells(cells: Seq<bool>, width: int, height: int) -> Seq<bool> {
    Seq::new(
        cells.len(),
        |i: int| rule(cells[i], live_neighbors(cells, width, height, i / width, i % width)),
    )
}

/// The generation `n` steps after `cells`.
pub open spec fn generations(cells: Seq<bool>, width: int, height: int, n: nat) -> Seq<bool>
    decreases n,
{
    if n == 0 {
        cells
    } else {
        next_cells(generations(cells, width, height, (n - 1) as nat), width, height)
    }
}

/// The number of entries of `idxs` that name a live cell.
pub open spec fn count_alive(cells: Seq<bool>, idxs: Seq<int>) -> int
    decreases idxs.len(),
{
    if idxs.len() == 0 {
        0
    } else {
        count_alive(cells, idxs.drop_last()) + if cells[idxs.last()] {
            1int
        } else {
            0
        }
    }
}

proof fn lemma_count_alive_concat(cells: Seq<bool>, a: Seq<int>, b: Seq<int>)
    ensures
        count_alive(cells, a + b) == count_alive(cells, a) + count_alive(cells, b),
    decreases b.len(),
{
    if b.len() == 0 {
        assert(a + b =~= a);
    } else {
        lemma_count_alive_concat(cells, a, b.drop_last());
        assert((a + b).drop_last() =~= a + b.drop_last());
    }
}

proof fn lemma_count_alive_at(cells: Seq<bool>, width: int, height: int, row: int, col: int)
    ensures
        count_alive(cells, neighbor_at(width, height, row, col)) == alive_at(
            cells,
            width,
            height,
            row,
            col,
        ),
{
    let s = neighbor_at(width, height, row, col);
    if in_bounds(width, height, row, col) {
        assert(s.drop_last() =~= Seq::<int>::empty());
        assert(count_alive(cells, s.drop_last()) == 0);
        assert(s.last() == index_of(col, row, width));
    } else {
        assert(s.len() == 0);
    }
}

/// Counting the live entries of the neighbour sequence gives the live-neighbour count.
proof fn lemma_count_neighbors(cells: Seq<bool>, width: int, height: int, row: int, col: int)
    ensures
        count_alive(cells, neighbor_seq(width, height, row, col)) == live_neighbors(
            cells,
            width,
            height,
            row,
            col,
        ),
{
    let p1 = neighbor_at(width, height, row - 1, col - 1);
    let p2 = neighbor_at(width, height, row - 1, col);
    let p3 = neighbor_at(width, height, row - 1, col + 1);
    let p4 = neighbor_at(width, height, row, col - 1);
    let p5 = neighbor_at(width, height, row, col + 1);
    let p6 = neighbor_at(width, height, row + 1, col - 1);
    let p7 = neighbor_at(width, height, row + 1, col);
    let p8 = neighbor_at(width, height, row + 1, col + 1);
    lemma_count_alive_at(cells, width, height, row - 1, col - 1);
    lemma_count_alive_at(cells, width, height, row - 1, col);
    lemma_count_alive_at(cells, width, height, row - 1, col + 1);
    lemma_count_alive_at(cells, width, height, row, col - 1);
    lemma_count_alive_at(cells, width, height, row, col + 1);
    lemma_count_alive_at(cells, width, height, row + 1, col - 1);
    lemma_count_alive_at(cells, width, height, row + 1, col);
    lemma_count_alive_at(cells, width, height, row + 1, col + 1);
    lemma_count_alive_concat(cells, p1, p2);
    lemma_count_alive_concat(cells, p1 + p2, p3);
    lemma_count_alive_concat(cells, p1 + p2 + p3, p4);
    lemma_count_alive_concat(cells, p1 + p2 + p3 + p4, p5);
    lemma_count_alive_concat(cells, p1 + p2 + p3 + p4 + p5, p6);
    lemma_count_alive_concat(cells, p1 + p2 + p3 + p4 + p5 + p6, p7);
    lemma_count_alive_concat(cells, p1 + p2 + p3 + p4 + p5 + p6 + p7, p8);
}

/// The number of live cells among the neighbours of cell `index` in `cells`.
pub fn count_live_neighbors(cells: &Vec<Cell>, index: usize, width: usize, height: usize) -> (r: u8)
    requires
        valid_dims(width as int, height as int),
        cells.len() == width * height,
        index < width * height,
    ensures
        r == live_neighbors(
            alive_cells(cells@),
            width as int,
            height as int,
            index as int / width as int,
            index as int % width as int,
        ),
{
    let ghost alive = alive_cells(cells@);
    let ghost row = index as int / width as int;
    let ghost col = index as int % width as int;
    let neighbors = get_neighbors(index, width, height);
    let ghost idxs = neighbors@.map_values(|j: usize| j as int);
    proof {
        lemma_neighbors_in_grid(width as int, height as int, row, col);
        lemma_count_neighbors(alive, width as int, height as int, row, col);
    }
    let mut count: u8 = 0;
    let mut k: usize = 0;
    while k < neighbors.len()
        invariant
            idxs == neighbor_seq(width as int, height as int, row, col),
            idxs == neighbors@.map_values(|j: usize| j as int),
            all_below(idxs, width * height),
            alive == alive_cells(cells@),
            cells.len() == width * height,
            neighbors.len() <= 8,
            k <= neighbors.len(),
            count <= k,
            count == count_alive(alive, idxs.take(k as int)),
        decreases neighbors.len() - k,
    {
        let j = neighbors[k];
        assert(idxs[k as int] == j as int);
        assert(idxs.take(k as int + 1).drop_last() =~= idxs.take(k as int));
        if cells[j].is_alive {
            count = count + 1;
        }
        k = k + 1;
    }
    assert(idxs.take(k as int) =~= idxs);
    count
}

/// The state of a cell in the next generation, from its state and its live-neighbour count.
pub fn next_state(alive: bool, live: u8) -> (r: bool)
    ensures
        r == rule(alive, live as int),
{
    if alive {
        live == 2 || live == 3
    } else {
        live == 3
    }
}

/// Advances `board` one generation: every cell is updated from a snapshot of the
/// states before the step, so no cell sees an already updated neighbour.
pub fn update_board(board: &mut Vec<Cell>, width: usize, height: usize)
    requires
        valid_dims(width as int, height as int),
        old(board).len() == width * height,
    ensures
        final(board).len() == old(board).len(),
        alive_cells(final(board)@) == next_cells(
            alive_cells(old(board)@),
            width as int,
            height as int,
        ),
{
    let mut snapshot: Vec<Cell> = Vec::new();
    let mut i: usize = 0;
    while i < board.len()
        invariant
            i <= board.len(),
            snapshot@ == board@.take(i as int),
        decreases board.len() - i,
    {
        snapshot.push(board[i]);
        i = i + 1;
        assert(snapshot@ =~= board@.take(i as int));
    }
    assert(snapshot@ =~= board@);
    let ghost before = alive_cells(snapshot@);
    let n = board.len();
    let mut i: usize = 0;
    while i < n
        invariant
            valid_dims(width as int, height as int),
            n == width * height,
            snapshot.len() == n,
            board.len() == n,
            before == alive_cells(snapshot@),
            i <= n,
            forall|j: int|
                0 <= j < i ==> board@[j].is_alive == #[trigger] next_cells(
                    before,
                    width as int,
                    height as int,
                )[j],
            forall|j: int| i <= j < n ==> #[trigger] board@[j] == snapshot@[j],
        decreases n - i,
    {
        let live = count_live_neighbors(&snapshot, i, width, height);
        let mut cell = board[i];
        if next_state(cell.is_alive, live) {
            cell.make_alive();
        } else {
            cell.make_dead();
        }
        board.set(i, cell);
        i = i + 1;
    }
    assert(alive_cells(board@) =~= next_cells(before, width as int, height as int));
}

} // verus!
