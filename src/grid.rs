use vstd::prelude::*;

verus! {

/// The state of one cell.
#[derive(Clone, Copy, Debug, PartialEq, Eq, Structural)]
pub enum Cell {
    Dead,
    Alive,
}

/// The ways an operation on a grid can be refused.
#[derive(Clone, Copy, Debug, PartialEq, Eq, Structural)]
pub enum LifeError {
    /// A width or a height of zero.
    InvalidDimension,
    /// Coordinates outside the grid.
    OutOfBounds,
}

/// The other state.
pub open spec fn flip(c: Cell) -> Cell {
    match c {
        Cell::Alive => Cell::Dead,
        Cell::Dead => Cell::Alive,
    }
}

/// 1 for a live cell, 0 for a dead one.
pub open spec fn cell_value(c: Cell) -> nat {
    if c is Alive {
        1
    } else {
        0
    }
}

/// Position of `(row, col)` in the row-major buffer of a grid `width` wide.
pub open spec fn index_of(width: nat, row: int, col: int) -> int {
    row * width + col
}

/// What the neighbour at offset `(dr, dc)` of `(row, col)` adds to the count.
/// Offsets are taken modulo the grid's size, and the offset `(0, 0)` adds
/// nothing: on a grid one or two cells across, the same cell may be reached
/// through more than one offset, and is then counted once for each.
pub open spec fn contribution(
    cells: Seq<Cell>,
    width: nat,
    height: nat,
    row: int,
    col: int,
    dr: int,
    dc: int,
) -> nat {
    if dr == 0 && dc == 0 {
        0
    } else {
        cell_value(cells[index_of(width, (row + dr) % (height as int), (col + dc) % (width as int))])
    }
}

/// The contributions of the three column offsets `width - 1`, `0`, `1`
/// with row offset `dr`.
pub open spec fn row_contribution(
    cells: Seq<Cell>,
    width: nat,
    height: nat,
    row: int,
    col: int,
    dr: int,
) -> nat {
    contribution(cells, width, height, row, col, dr, width - 1)
        + contribution(cells, width, height, row, col, dr, 0)
        + contribution(cells, width, height, row, col, dr, 1)
}

/// The number of live neighbours of `(row, col)`: the offsets
/// `{height - 1, 0, 1} x {width - 1, 0, 1}` but `(0, 0)`, with wraparound.
pub open spec fn neighbors(cells: Seq<Cell>, width: nat, height: nat, row: int, col: int) -> nat {
    row_contribution(cells, width, height, row, col, height - 1)
        + row_contribution(cells, width, height, row, col, 0)
        + row_contribution(cells, width, height, row, col, 1)
}

/// The transition rule for one cell with `n` live neighbours.
pub open spec fn rule(c: Cell, n: nat) -> Cell {
    match c {
        Cell::Alive => if n == 2 || n == 3 {
            Cell::Alive
        } else {
            Cell::Dead
        },
        Cell::Dead => if n == 3 {
            Cell::Alive
        } else {
            Cell::Dead
        },
    }
}

/// The next generation of the row-major buffer `cells`, all cells at once.
pub open spec fn next_cells(cells: Seq<Cell>, width: nat, height: nat) -> Seq<Cell> {
    Seq::new(
        cells.len(),
        |i: int| rule(cells[i], neighbors(cells, width, height, i / (width as int), i % (width as int))),
    )
}

/// The shape every grid keeps: both sides at least one, one cell per
/// position, and a buffer whose length fits in `usize`.
pub open spec fn well_formed(cells: Seq<Cell>, width: nat, height: nat) -> bool {
    &&& width >= 1
    &&& height >= 1
    &&& width * height <= usize::MAX
    &&& cells.len() == width * height
}

/// A `width` x `height` universe whose edges wrap around, stored row-major.
pub struct Grid {
    width: u32,
    height: u32,
    cells: Vec<Cell>,
}

impl View for Grid {
    type V = Seq<Cell>;

    closed spec fn view(&self) -> Seq<Cell> {
        self.cells@
    }
}

impl Grid {
    pub closed spec fn spec_width(&self) -> nat {
        self.width as nat
    }

    pub closed spec fn spec_height(&self) -> nat {
        self.height as nat
    }

    pub open spec fn wf(&self) -> bool {
        well_formed(self@, self.spec_width(), self.spec_height())
    }

    /// The cell at `(row, col)` in the model.
    pub open spec fn at(&self, row: int, col: int) -> Cell {
        self@[index_of(self.spec_width(), row, col)]
    }

    /// A grid of dead cells; zero width or height is refused.
    pub fn new(width: u32, height: u32) -> (r: Result<Grid, LifeError>)
        requires
            width as nat * height as nat <= usize::MAX,
        ensures
            (width == 0 || height == 0) <==> r is Err,
            r is Err ==> r->Err_0 == LifeError::InvalidDimension,
            r is Ok ==> {
                let g = r->Ok_0;
                &&& g.wf()
                &&& g.spec_width() == width
                &&& g.spec_height() == height
                &&& forall|i: int| 0 <= i < g@.len() ==> g@[i] == Cell::Dead
            },
    {
        if width == 0 || height == 0 {
            return Err(LifeError::InvalidDimension);
        }
        let n: usize = width as usize * height as usize;
        let mut cells: Vec<Cell> = Vec::new();
        while cells.len() < n
            invariant
                cells@.len() <= n,
                forall|i: int| 0 <= i < cells@.len() ==> cells@[i] == Cell::Dead,
            decreases n - cells@.len(),
        {
            cells.push(Cell::Dead);
        }
        Ok(Grid { width, height, cells })
    }

    /// A grid holding the given row-major buffer; zero width or height is refused.
    pub fn from_cells(width: u32, height: u32, cells: Vec<Cell>) -> (r: Result<Grid, LifeError>)
        requires
            width as nat * height as nat <= usize::MAX,
            cells@.len() == width as nat * height as nat,
        ensures
            (width == 0 || height == 0) <==> r is Err,
            r is Err ==> r->Err_0 == LifeError::InvalidDimension,
            r is Ok ==> {
                let g = r->Ok_0;
                &&& g.wf()
                &&& g.spec_width() == width
                &&& g.spec_height() == height
                &&& g@ == cells@
            },
    {
        if width == 0 || height == 0 {
            return Err(LifeError::InvalidDimension);
        }
        Ok(Grid { width, height, cells })
    }

    pub fn width(&self) -> (r: u32)
        ensures
            r == self.spec_width(),
    {
        self.width
    }

    pub fn height(&self) -> (r: u32)
        ensures
            r == self.spec_height(),
    {
        self.height
    }

    /// The row-major buffer of cells.
    pub fn cells(&self) -> (r: &Vec<Cell>)
        ensures
            r@ == self@,
    {
        &self.cells
    }

    /// Position of `(row, col)` in the buffer.
    fn index(&self, row: u32, col: u32) -> (r: usize)
        requires
            self.wf(),
            row < self.spec_height(),
            col < self.spec_width(),
        ensures
            r == index_of(self.spec_width(), row as int, col as int),
            r < self@.len(),
    {
        proof {
            lemma_index_in_bounds(self.width as nat, self.height as nat, row as int, col as int);
        }
        row as usize * self.width as usize + col as usize
    }

    pub fn get(&self, row: u32, col: u32) -> (r: Cell)
        requires
            self.wf(),
            row < self.spec_height(),
            col < self.spec_width(),
        ensures
            r == self.at(row as int, col as int),
    {
        self.cells[self.index(row, col)]
    }

    pub fn set(&mut self, row: u32, col: u32, c: Cell)
        requires
            old(self).wf(),
            row < old(self).spec_height(),
            col < old(self).spec_width(),
        ensures
            final(self).wf(),
            final(self).spec_width() == old(self).spec_width(),
            final(self).spec_height() == old(self).spec_height(),
            final(self)@ == old(self)@.update(index_of(old(self).spec_width(), row as int, col as int), c),
    {
        let i = self.index(row, col);
        self.cells.set(i, c);
    }

    /// What the neighbour at offset `(dr, dc)` adds to the count of `(row, col)`.
    fn contribution(&self, row: u32, col: u32, dr: u32, dc: u32) -> (r: u8)
        requires
            self.wf(),
            row < self.spec_height(),
            col < self.spec_width(),
            dr < self.spec_height() || dr == 1,
            dc < self.spec_width() || dc == 1,
        ensures
            r == contribution(self@, self.spec_width(), self.spec_height(), row as int, col as int, dr as int, dc as int),
            r <= 1,
    {
        if dr == 0 && dc == 0 {
            return 0;
        }
        let nr = ((row as u64 + dr as u64) % self.height as u64) as u32;
        let nc = ((col as u64 + dc as u64) % self.width as u64) as u32;
        match self.cells[self.index(nr, nc)] {
            Cell::Alive => 1,
            Cell::Dead => 0,
        }
    }

    /// The live neighbours of `(row, col)` among offsets `(dr, width - 1)`, `(dr, 0)`, `(dr, 1)`.
    fn row_contribution(&self, row: u32, col: u32, dr: u32) -> (r: u8)
        requires
            self.wf(),
            row < self.spec_height(),
            col < self.spec_width(),
            dr < self.spec_height() || dr == 1,
        ensures
            r == row_contribution(self@, self.spec_width(), self.spec_height(), row as int, col as int, dr as int),
            r <= 3,
            dr == 0 ==> r <= 2,
    {
        let a = self.contribution(row, col, dr, self.width - 1);
        let b = self.contribution(row, col, dr, 0);
        let c = self.contribution(row, col, dr, 1);
        a + b + c
    }

    /// The number of live neighbours of `(row, col)`, with wraparound.
    pub fn neighbor_count(&self, row: u32, col: u32) -> (r: u8)
        requires
            self.wf(),
            row < self.spec_height(),
            col < self.spec_width(),
        ensures
            r == neighbors(self@, self.spec_width(), self.spec_height(), row as int, col as int),
            r <= 8,
    {
        let a = self.row_contribution(row, col, self.height - 1);
        let b = self.row_contribution(row, col, 0);
        let c = self.row_contribution(row, col, 1);
        a + b + c
    }

    /// The next generation: each cell's fate is decided by the transition
    /// rule from its own state and its neighbours in this generation.
    pub fn next_generation(&self) -> (r: Grid)
        requires
            self.wf(),
        ensures
            r.wf(),
            r.spec_width() == self.spec_width(),
            r.spec_height() == self.spec_height(),
            r@ == next_cells(self@, self.spec_width(), self.spec_height()),
    {
        let ghost w = self.width as nat;
        let ghost h = self.height as nat;
        let ghost target = next_cells(self@, w, h);
        let mut next: Vec<Cell> = Vec::new();
        let mut row: u32 = 0;
        while row < self.height
            invariant
                self.wf(),
                w == self.spec_width(),
                h == self.spec_height(),
                target == next_cells(self@, w, h),
                target.len() == w * h,
                row <= h,
                next@.len() == row * w,
                forall|k: int| 0 <= k < next@.len() ==> next@[k] == target[k],
            decreases h - row,
        {
            let mut col: u32 = 0;
            while col < self.width
                invariant
                    self.wf(),
                    w == self.spec_width(),
                    h == self.spec_height(),
                    target == next_cells(self@, w, h),
                    target.len() == w * h,
                    row < h,
                    col <= w,
                    next@.len() == row * w + col,
                    forall|k: int| 0 <= k < next@.len() ==> next@[k] == target[k],
                decreases w - col,
            {
                let cell = self.get(row, col);
                let n = self.neighbor_count(row, col);
                let next_cell = match (cell, n) {
                    (Cell::Alive, 2) | (Cell::Alive, 3) => Cell::Alive,
                    (Cell::Alive, _) => Cell::Dead,
                    (Cell::Dead, 3) => Cell::Alive,
                    (Cell::Dead, _) => Cell::Dead,
                };
                proof {
                    let k = row * w + col;
                    lemma_index_in_bounds(w, h, row as int, col as int);
                    vstd::arithmetic::div_mod::lemma_fundamental_div_mod_converse(
                        k,
                        w as int,
                        row as int,
                        col as int,
                    );
                    assert(target[k] == next_cell);
                }
                next.push(next_cell);
                col = col + 1;
            }
            proof {
                assert((row + 1) * w == row * w + w) by (nonlinear_arith);
            }
            row = row + 1;
        }
        proof {
            assert(h * w == w * h) by (nonlinear_arith);
            assert(next@ =~= target);
        }
        Grid { width: self.width, height: self.height, cells: next }
    }
}

/// Every cell of a grid has between zero and eight live neighbours.
pub proof fn lemma_neighbors_at_most_eight(cells: Seq<Cell>, width: nat, height: nat, row: int, col: int)
    requires
        well_formed(cells, width, height),
        0 <= row < height,
        0 <= col < width,
    ensures
        0 <= neighbors(cells, width, height, row, col) <= 8,
{
    assert forall|dr: int, dc: int| contribution(cells, width, height, row, col, dr, dc) <= 1 by {}
    assert(contribution(cells, width, height, row, col, 0, 0) == 0);
}

/// Flipping the same cell twice gives back the buffer it started from.
pub proof fn lemma_toggle_twice(cells: Seq<Cell>, width: nat, height: nat, x: int, y: int)
    requires
        well_formed(cells, width, height),
        0 <= x < width,
        0 <= y < height,
    ensures
        ({
            let i = index_of(width, y, x);
            let once = cells.update(i, flip(cells[i]));
            once.update(i, flip(once[i])) == cells
        }),
{
    let i = index_of(width, y, x);
    lemma_index_in_bounds(width, height, y, x);
    let once = cells.update(i, flip(cells[i]));
    assert(once.update(i, flip(once[i])) =~= cells);
}

/// The edges wrap around: a live cell in the corner `(0, 0)` counts as a
/// neighbour of the opposite corner `(height - 1, width - 1)`, of the last
/// cell of the first column `(height - 1, 0)` and of the last cell of the
/// first row `(0, width - 1)`.
pub proof fn lemma_corner_wraps(cells: Seq<Cell>, width: nat, height: nat)
    requires
        well_formed(cells, width, height),
        cells[0] == Cell::Alive,
    ensures
        neighbors(cells, width, height, height - 1, width - 1) >= 1,
        neighbors(cells, width, height, height - 1, 0) >= 1,
        neighbors(cells, width, height, 0, width - 1) >= 1,
{
    let w = width as int;
    let h = height as int;
    assert((h - 1 + 1) % h == 0) by {
        vstd::arithmetic::div_mod::lemma_mod_self_0(h);
    }
    assert((w - 1 + 1) % w == 0) by {
        vstd::arithmetic::div_mod::lemma_mod_self_0(w);
    }
    assert((0 + 0int) % w == 0) by {
        vstd::arithmetic::div_mod::lemma_small_mod(0, w as nat);
    }
    assert((0 + 0int) % h == 0) by {
        vstd::arithmetic::div_mod::lemma_small_mod(0, h as nat);
    }
    assert(index_of(width, 0, 0) == 0);
    assert(contribution(cells, width, height, h - 1, w - 1, 1, 1) == 1);
    assert(contribution(cells, width, height, h - 1, 0, 1, 0) == 1);
    assert(contribution(cells, width, height, 0, w - 1, 0, 1) == 1);
}

proof fn lemma_index_in_bounds(width: nat, height: nat, row: int, col: int)
    requires
        0 <= row < height,
        0 <= col < width,
    ensures
        0 <= index_of(width, row, col) < width * height,
{
    assert(0 <= row * width + col < width * height) by (nonlinear_arith)
        requires
            0 <= row < height,
            0 <= col < width,
    ;
}

} // verus!
