//! The cell grid: a fixed-dimension boolean matrix with row-major
//! addressing, plus the Moore-neighborhood evaluator.

use vstd::prelude::*;

use crate::SimError;

verus! {

/// Mathematical model of a grid: its dimensions and the row-major
/// sequence of alive flags.
#[verifier::ext_equal]
pub ghost struct GridView {
    pub width: nat,
    pub height: nat,
    pub cells: Seq<bool>,
}

impl GridView {
    /// The grid's addressing scheme: `index(x, y) = y * height + x`.
    pub open spec fn idx(self, x: int, y: int) -> int {
        y * self.height + x
    }

    /// Coordinates of the cell stored at index `i`:
    /// `coords(i) = (i % width, i / height)`.
    pub open spec fn coord_x(self, i: int) -> int {
        i % (self.width as int)
    }

    /// See `coord_x`.
    pub open spec fn coord_y(self, i: int) -> int {
        i / (self.height as int)
    }

    /// Whether `(x, y)` lies on the grid.
    pub open spec fn in_range(self, x: int, y: int) -> bool {
        0 <= x < self.width && 0 <= y < self.height
    }

    /// A well-formed grid is square (the addressing scheme above is a
    /// bijection exactly then), non-empty, and stores one flag per cell.
    pub open spec fn wf(self) -> bool {
        &&& self.width == self.height
        &&& self.width >= 1
        &&& self.cells.len() == self.width * self.height
    }

    /// Whether the cell at `(x, y)` is alive; coordinates off the grid
    /// count as dead (no wraparound).
    pub open spec fn live(self, x: int, y: int) -> bool {
        self.in_range(x, y) && self.cells[self.idx(x, y)]
    }

    /// 1 if the cell at `(x, y)` is alive, else 0.
    pub open spec fn one_if_live(self, x: int, y: int) -> nat {
        if self.live(x, y) {
            1
        } else {
            0
        }
    }

    /// Number of live cells among the up-to-8 Moore neighbors of
    /// `(x, y)`; offsets that leave the grid are skipped.
    pub open spec fn neighbor_count(self, x: int, y: int) -> nat {
        self.one_if_live(x - 1, y - 1) + self.one_if_live(x, y - 1) + self.one_if_live(
            x + 1,
            y - 1,
        ) + self.one_if_live(x - 1, y) + self.one_if_live(x + 1, y) + self.one_if_live(x - 1, y + 1)
            + self.one_if_live(x, y + 1) + self.one_if_live(x + 1, y + 1)
    }
}

/// On a well-formed grid every in-range coordinate pair addresses a cell
/// inside the backing storage.
pub proof fn lemma_idx_in_bounds(g: GridView, x: int, y: int)
    requires
        g.wf(),
        g.in_range(x, y),
    ensures
        0 <= g.idx(x, y) < g.cells.len(),
{
    assert(0 <= y * g.height + x < g.width * g.height) by (nonlinear_arith)
        requires
            g.width == g.height,
            0 <= x < g.width,
            0 <= y < g.height,
    ;
}

/// On a well-formed grid, the coordinates of a valid index are in range,
/// and indexing those coordinates gives the index back.
pub proof fn lemma_coords_in_range(g: GridView, i: int)
    requires
        g.wf(),
        0 <= i < g.cells.len(),
    ensures
        g.in_range(g.coord_x(i), g.coord_y(i)),
        g.idx(g.coord_x(i), g.coord_y(i)) == i,
{
    let w = g.width as int;
    assert(i % w == i - (i / w) * w && 0 <= i % w < w && (i / w) * w <= i) by (nonlinear_arith)
        requires
            w >= 1,
            0 <= i,
    ;
    assert(i / w < w) by (nonlinear_arith)
        requires
            w >= 1,
            0 <= i < w * w,
    ;
}

/// A fixed-size boolean cell matrix, immutable in normal simulation flow:
/// the stepper always produces a fresh grid.
pub struct Grid {
    pub(crate) width: usize,
    pub(crate) height: usize,
    pub(crate) cells: Vec<bool>,
}

impl View for Grid {
    type V = GridView;

    closed spec fn view(&self) -> GridView {
        GridView { width: self.width as nat, height: self.height as nat, cells: self.cells@ }
    }
}

impl Grid {
    /// Makes an all-dead grid of the given dimensions. Rejects zero-sized
    /// or non-square dimensions, and ones whose cell count overflows.
    pub fn new_grid(width: usize, height: usize) -> (r: Result<Grid, SimError>)
        ensures
            match r {
                Ok(g) => {
                    &&& g@.wf()
                    &&& g@.width == width
                    &&& g@.height == height
                    &&& forall|i: int| 0 <= i < g@.cells.len() ==> !g@.cells[i]
                },
                Err(e) => {
                    &&& e == SimError::InvalidDimensions
                    &&& (width == 0 || width != height || width * height > usize::MAX)
                },
            },
            r is Ok <==> (1 <= width && width == height && width * height <= usize::MAX),
    {
        if width == 0 || width != height {
            return Err(SimError::InvalidDimensions);
        }
        let total = match width.checked_mul(height) {
            Some(t) => t,
            None => {
                return Err(SimError::InvalidDimensions);
            },
        };
        let mut cells: Vec<bool> = Vec::new();
        let mut i: usize = 0;
        while i < total
            invariant
                i <= total,
                cells@.len() == i,
                forall|j: int| 0 <= j < i ==> !cells@[j],
            decreases total - i,
        {
            cells.push(false);
            i += 1;
        }
        Ok(Grid { width, height, cells })
    }

    /// Assembles a grid from its parts; the stepper and the seeder build
    /// their fresh grids through this.
    pub(crate) fn from_parts(width: usize, height: usize, cells: Vec<bool>) -> (r: Grid)
        ensures
            r@ == (GridView { width: width as nat, height: height as nat, cells: cells@ }),
    {
        Grid { width, height, cells }
    }

    /// The grid's width.
    pub fn width(&self) -> (w: usize)
        ensures
            w == self@.width,
    {
        self.width
    }

    /// The grid's height.
    pub fn height(&self) -> (h: usize)
        ensures
            h == self@.height,
    {
        self.height
    }

    /// Total number of cells.
    pub fn len(&self) -> (n: usize)
        ensures
            n == self@.cells.len(),
    {
        self.cells.len()
    }

    /// `index(x, y) = y * height + x`.
    pub fn get_idx(&self, x: usize, y: usize) -> (i: usize)
        requires
            self@.wf(),
            self@.in_range(x as int, y as int),
        ensures
            i == self@.idx(x as int, y as int),
            i < self@.cells.len(),
    {
        let n = self.cells.len();
        proof {
            lemma_idx_in_bounds(self@, x as int, y as int);
            assert(y * self@.height + x < n);
        }
        y * self.height + x
    }

    /// `coords(i) = (i % width, i / height)`.
    pub fn get_x_y(&self, i: usize) -> (xy: (usize, usize))
        requires
            self@.wf(),
            i < self@.cells.len(),
        ensures
            xy.0 == self@.coord_x(i as int),
            xy.1 == self@.coord_y(i as int),
            self@.in_range(xy.0 as int, xy.1 as int),
    {
        proof {
            lemma_coords_in_range(self@, i as int);
        }
        (i % self.width, i / self.height)
    }

    /// The alive flag of the cell stored at index `i`.
    pub fn cell(&self, i: usize) -> (alive: bool)
        requires
            i < self@.cells.len(),
        ensures
            alive == self@.cells[i as int],
    {
        self.cells[i]
    }

    /// The alive flag of the cell at `(x, y)`.
    pub fn get_cell(&self, x: usize, y: usize) -> (alive: bool)
        requires
            self@.wf(),
            self@.in_range(x as int, y as int),
        ensures
            alive == self@.live(x as int, y as int),
    {
        let i = self.get_idx(x, y);
        self.cells[i]
    }

    /// Overwrites the alive flag of the cell at `(x, y)`.
    pub fn set_cell(&mut self, x: usize, y: usize, alive: bool)
        requires
            old(self)@.wf(),
            old(self)@.in_range(x as int, y as int),
        ensures
            final(self)@.wf(),
            final(self)@.width == old(self)@.width,
            final(self)@.height == old(self)@.height,
            final(self)@.cells == old(self)@.cells.update(
                old(self)@.idx(x as int, y as int),
                alive,
            ),
    {
        let n = self.cells.len();
        proof {
            lemma_idx_in_bounds(self@, x as int, y as int);
            assert(y * self@.height + x < n);
        }
        let i = y * self.height + x;
        self.cells.set(i, alive);
    }

    /// Live-neighbor count for the cell at `(x, y)`: examines the up to 8
    /// surrounding cells, skipping any offset that leaves the grid (no
    /// wraparound; an underflowing coordinate counts as out of range).
    pub fn neighbor_count(&self, x: usize, y: usize) -> (count: u8)
        requires
            self@.wf(),
            self@.in_range(x as int, y as int),
        ensures
            count == self@.neighbor_count(x as int, y as int),
            count <= 8,
    {
        let w = self.width;
        let h = self.height;
        let n = self.cells.len();
        let mut count: u8 = 0;
        proof {
            assert(n == self@.width * self@.height);
            let xi = x as int;
            let yi = y as int;
            let wi = w as int;
            let hi = h as int;
            assert((xi >= 1 && yi >= 1 ==> 0 <= (yi - 1) * hi + (xi - 1) < wi * hi) && (yi >= 1
                ==> 0 <= (yi - 1) * hi + xi < wi * hi) && (xi + 1 < wi && yi >= 1 ==> 0 <= (yi - 1)
                * hi + (xi + 1) < wi * hi) && (xi >= 1 ==> 0 <= yi * hi + (xi - 1) < wi * hi) && (xi
                + 1 < wi ==> 0 <= yi * hi + (xi + 1) < wi * hi) && (xi >= 1 && yi + 1 < hi ==> 0 <=
                (yi + 1) * hi + (xi - 1) < wi * hi) && (yi + 1 < hi ==> 0 <= (yi + 1) * hi + xi < wi
                * hi) && (xi + 1 < wi && yi + 1 < hi ==> 0 <= (yi + 1) * hi + (xi + 1) < wi * hi))
                by (nonlinear_arith)
                requires
                    wi == hi,
                    1 <= wi,
                    0 <= xi < wi,
                    0 <= yi < hi,
            ;
        }
        if x >= 1 && y >= 1 && self.cells[(y - 1) * h + (x - 1)] {
            count += 1;
        }
        if y >= 1 && self.cells[(y - 1) * h + x] {
            count += 1;
        }
        if x + 1 < w && y >= 1 && self.cells[(y - 1) * h + (x + 1)] {
            count += 1;
        }
        if x >= 1 && self.cells[y * h + (x - 1)] {
            count += 1;
        }
        if x + 1 < w && self.cells[y * h + (x + 1)] {
            count += 1;
        }
        if x >= 1 && y + 1 < h && self.cells[(y + 1) * h + (x - 1)] {
            count += 1;
        }
        if y + 1 < h && self.cells[(y + 1) * h + x] {
            count += 1;
        }
        if x + 1 < w && y + 1 < h && self.cells[(y + 1) * h + (x + 1)] {
            count += 1;
        }
        count
    }
}

} // verus!
