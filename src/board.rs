use vstd::prelude::*;
use crate::config::{check_dims, dims_error, valid_ratio, ConfigError};
use crate::grid::{get_index_by_xy, index_of, lemma_index_in_grid, valid_dims};
use crate::life::{alive_cells, next_cells, update_board, Cell};

verus! {

/// What a board holds: its size and the alive flag of each cell in row-major order.
pub struct BoardView {
    pub width: nat,
    pub height: nat,
    pub cells: Seq<bool>,
}

/// A fixed-size Game of Life grid.
pub struct Board {
    width: usize,
    height: usize,
    cells: Vec<Cell>,
}

impl View for Board {
    type V = BoardView;

    closed spec fn view(&self) -> BoardView {
        BoardView {
            width: self.width as nat,
            height: self.height as nat,
            cells: alive_cells(self.cells@),
        }
    }
}

/// Relies on rand::Rng::gen_ratio with the generator of rand::thread_rng: a draw that
/// is true with probability `numerator / denominator`, never true when `numerator` is 0
/// and always true when it equals `denominator`. It panics unless
/// `0 < denominator` and `numerator <= denominator`.
#[verifier::external_body]
fn draw_ratio(numerator: u32, denominator: u32) -> (r: bool)
    requires
        0 < denominator,
        numerator <= denominator,
    ensures
        numerator == 0 ==> !r,
        numerator == denominator ==> r,
{
    rand::Rng::gen_ratio(&mut rand::thread_rng(), numerator, denominator)
}

impl Board {
    /// The board's own invariant: a non-empty grid holding one cell per position.
    pub open spec fn wf(&self) -> bool {
        valid_dims(self@.width as int, self@.height as int) && self@.cells.len() == self@.width
            * self@.height
    }

    /// A board of `width` by `height` whose cell `i` is alive exactly when `alive[i]` is.
    pub fn from_alive(width: usize, height: usize, alive: &Vec<bool>) -> (r: Result<
        Board,
        ConfigError,
    >)
        ensures
            r is Ok <==> dims_error(width as int, height as int) is None && alive.len() == width
                * height,
            r is Err ==> r->Err_0 == match dims_error(width as int, height as int) {
                Some(e) => e,
                None => ConfigError::SizeMismatch,
            },
            r is Ok ==> r->Ok_0.wf() && r->Ok_0@ == (BoardView {
                width: width as nat,
                height: height as nat,
                cells: alive@,
            }),
    {
        match check_dims(width, height) {
            Err(e) => {
                return Err(e);
            },
            Ok(()) => {},
        }
        if alive.len() != width * height {
            return Err(ConfigError::SizeMismatch);
        }
        let mut cells: Vec<Cell> = Vec::new();
        let mut i: usize = 0;
        while i < alive.len()
            invariant
                i <= alive.len(),
                cells.len() == i,
                alive_cells(cells@) == alive@.take(i as int),
            decreases alive.len() - i,
        {
            cells.push(Cell::new(alive[i]));
            i = i + 1;
            assert(alive_cells(cells@) =~= alive@.take(i as int));
        }
        assert(alive@.take(i as int) =~= alive@);
        Ok(Board { width, height, cells })
    }

    /// A board of `width` by `height` with every cell dead.
    pub fn new_dead(width: usize, height: usize) -> (r: Result<Board, ConfigError>)
        ensures
            r is Ok <==> dims_error(width as int, height as int) is None,
            r is Err ==> dims_error(width as int, height as int) == Some(r->Err_0),
            r is Ok ==> r->Ok_0.wf() && r->Ok_0@.width == width && r->Ok_0@.height == height
                && forall|i: int| 0 <= i < r->Ok_0@.cells.len() ==> !#[trigger] r->Ok_0@.cells[i],
    {
        match check_dims(width, height) {
            Err(e) => Err(e),
            Ok(()) => {
                let n = width * height;
                let mut cells: Vec<Cell> = Vec::new();
                let mut i: usize = 0;
                while i < n
                    invariant
                        i <= n,
                        cells.len() == i,
                        forall|j: int| 0 <= j < i ==> !(#[trigger] cells@[j]).is_alive,
                    decreases n - i,
                {
                    cells.push(Cell::new(false));
                    i = i + 1;
                }
                Ok(Board { width, height, cells })
            },
        }
    }

    /// A board of `width` by `height` whose cells are each drawn alive with probability
    /// `numerator / denominator`, independently. Which cells come alive is up to chance;
    /// none do when `numerator` is 0 and all do when it equals `denominator`.
    pub fn random(width: usize, height: usize, numerator: u32, denominator: u32) -> (r: Result<
        Board,
        ConfigError,
    >)
        ensures
            r is Ok <==> dims_error(width as int, height as int) is None && valid_ratio(
                numerator as int,
                denominator as int,
            ),
            r is Err ==> r->Err_0 == match dims_error(width as int, height as int) {
                Some(e) => e,
                None => ConfigError::InvalidProbability,
            },
            r is Ok ==> r->Ok_0.wf() && r->Ok_0@.width == width && r->Ok_0@.height == height,
            r is Ok && numerator == 0 ==> forall|i: int|
                0 <= i < r->Ok_0@.cells.len() ==> !#[trigger] r->Ok_0@.cells[i],
            r is Ok && numerator == denominator ==> forall|i: int|
                0 <= i < r->Ok_0@.cells.len() ==> #[trigger] r->Ok_0@.cells[i],
    {
        match check_dims(width, height) {
            Err(e) => {
                return Err(e);
            },
            Ok(()) => {},
        }
        if denominator == 0 || numerator > denominator {
            return Err(ConfigError::InvalidProbability);
        }
        let n = width * height;
        let mut alive: Vec<bool> = Vec::new();
        let mut i: usize = 0;
        while i < n
            invariant
                0 < denominator,
                numerator <= denominator,
                i <= n,
                alive.len() == i,
                numerator == 0 ==> forall|j: int| 0 <= j < i ==> !#[trigger] alive@[j],
                numerator == denominator ==> forall|j: int| 0 <= j < i ==> #[trigger] alive@[j],
            decreases n - i,
        {
            alive.push(draw_ratio(numerator, denominator));
            i = i + 1;
        }
        Board::from_alive(width, height, &alive)
    }

    pub fn width(&self) -> (r: usize)
        ensures
            r == self@.width,
    {
        self.width
    }

    pub fn height(&self) -> (r: usize)
        ensures
            r == self@.height,
    {
        self.height
    }

    /// Whether the cell in column `x`, row `y` is alive.
    pub fn is_alive(&self, x: usize, y: usize) -> (r: bool)
        requires
            self.wf(),
            x < self@.width,
            y < self@.height,
        ensures
            r == self@.cells[index_of(x as int, y as int, self@.width as int)],
    {
        let i = get_index_by_xy(x, y, self.width, self.height);
        self.cells[i].is_alive
    }

    /// Sets the cell in column `x`, row `y` alive or dead.
    pub fn set_alive(&mut self, x: usize, y: usize, alive: bool)
        requires
            old(self).wf(),
            x < old(self)@.width,
            y < old(self)@.height,
        ensures
            final(self).wf(),
            final(self)@.width == old(self)@.width,
            final(self)@.height == old(self)@.height,
            final(self)@.cells == old(self)@.cells.update(
                index_of(x as int, y as int, old(self)@.width as int),
                alive,
            ),
    {
        let i = get_index_by_xy(x, y, self.width, self.height);
        self.cells.set(i, Cell::new(alive));
        assert(alive_cells(self.cells@) =~= old(self)@.cells.update(i as int, alive));
    }

    /// Every cell as `(x, y, alive)`, column by column and top to bottom within a
    /// column: entry `k` is column `k / height`, row `k % height`.
    pub fn cells_xy(&self) -> (r: Vec<(usize, usize, bool)>)
        requires
            self.wf(),
        ensures
            r.len() == self@.cells.len(),
            forall|k: int|
                0 <= k < r.len() ==> #[trigger] r@[k] == (
                    (k / self@.height as int) as usize,
                    (k % self@.height as int) as usize,
                    self@.cells[index_of(
                        k / self@.height as int,
                        k % self@.height as int,
                        self@.width as int,
                    )],
                ),
    {
        let ghost w = self.width as int;
        let ghost h = self.height as int;
        let mut out: Vec<(usize, usize, bool)> = Vec::new();
        let mut x: usize = 0;
        while x < self.width
            invariant
                self.wf(),
                w == self.width,
                h == self.height,
                x <= self.width,
                out.len() == x * h,
                forall|k: int|
                    0 <= k < out.len() ==> #[trigger] out@[k] == (
                        (k / h) as usize,
                        (k % h) as usize,
                        self@.cells[index_of(k / h, k % h, w)],
                    ),
            decreases self.width - x,
        {
            let mut y: usize = 0;
            while y < self.height
                invariant
                    self.wf(),
                    w == self.width,
                    h == self.height,
                    x < self.width,
                    y <= self.height,
                    out.len() == x * h + y,
                    forall|k: int|
                        0 <= k < out.len() ==> #[trigger] out@[k] == (
                            (k / h) as usize,
                            (k % h) as usize,
                            self@.cells[index_of(k / h, k % h, w)],
                        ),
                decreases self.height - y,
            {
                proof {
                    lemma_index_in_grid(h, w, x as int, y as int);
                }
                let alive = self.is_alive(x, y);
                out.push((x, y, alive));
                y = y + 1;
            }
            assert(x * h + h == (x + 1) * h) by (nonlinear_arith);
            x = x + 1;
        }
        assert(out.len() == w * h) by (nonlinear_arith)
            requires out.len() == x * h, x == w;
        out
    }

    /// Advances the board one generation under the B3/S23 rule.
    pub fn step(&mut self)
        requires
            old(self).wf(),
        ensures
            final(self).wf(),
            final(self)@.width == old(self)@.width,
            final(self)@.height == old(self)@.height,
            final(self)@.cells == next_cells(
                old(self)@.cells,
                old(self)@.width as int,
                old(self)@.height as int,
            ),
    {
        update_board(&mut self.cells, self.width, self.height);
    }
}

} // verus!
