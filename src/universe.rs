use crate::grid::{flip, index_of, next_cells, Cell, Grid, LifeError};
use crate::render::{drawing, render, DrawOp};
use random::Source;
use vstd::prelude::*;

verus! {

/// The side of one cell on the drawing surface, in pixels.
pub const CELL_SIZE: u32 = 10;

/// Odds of life that make every cell alive: they are counted in units of
/// 2^-64, and every draw is below 2^64.
pub const CERTAIN: u128 = 0x1_0000_0000_0000_0000;

/// The source of randomness that seeds a universe.
#[verifier::external_type_specification]
#[verifier::external_body]
pub struct ExRandomDefault(random::Default);

/// Relies on random::default: the thread's default Xorshift128+ source.
pub assume_specification[ random::default ]() -> random::Default;

/// Relies on random::Default::seed: reseeds the source; in debug builds it
/// asserts that the seed has a bit set.
pub assume_specification[ random::Default::seed ](source: random::Default, seed: [u64; 2]) -> random::Default
    requires
        seed[0] != 0 || seed[1] != 0,
;

/// Relies on random::Source::read_u64 for random::Default: the next value of
/// the source, which may be any u64.
#[verifier::external_body]
fn draw(source: &mut random::Default) -> (r: u64) {
    source.read_u64()
}

/// The buffer seeded from `draws`, one per cell: a cell is alive when its
/// draw is below `odds`.
pub open spec fn seeded(draws: Seq<u64>, odds: int) -> Seq<Cell> {
    Seq::new(draws.len(), |i: int| if (draws[i] as int) < odds { Cell::Alive } else { Cell::Dead })
}

/// A running game: the grid that the controller owns and advances.
pub struct Universe {
    grid: Grid,
}

impl Universe {
    pub closed spec fn spec_grid(&self) -> Grid {
        self.grid
    }

    pub open spec fn wf(&self) -> bool {
        self.spec_grid().wf()
    }

    /// A universe holding `grid`.
    pub fn from_grid(grid: Grid) -> (r: Universe)
        ensures
            r.spec_grid() == grid,
    {
        Universe { grid }
    }

    /// A universe whose cells are seeded from `draws`, one per cell in
    /// row-major order: a cell is alive when its draw is below `alive_odds`,
    /// the odds of life counted in units of 2^-64.
    pub fn from_draws(width: u32, height: u32, alive_odds: u128, draws: &Vec<u64>) -> (r: Result<Universe, LifeError>)
        requires
            width as nat * height as nat <= usize::MAX,
            draws@.len() == width as nat * height as nat,
        ensures
            (width == 0 || height == 0) <==> r is Err,
            r is Err ==> r->Err_0 == LifeError::InvalidDimension,
            r is Ok ==> {
                let g = r->Ok_0.spec_grid();
                &&& g.wf()
                &&& g.spec_width() == width
                &&& g.spec_height() == height
                &&& g@ == seeded(draws@, alive_odds as int)
            },
    {
        let mut cells: Vec<Cell> = Vec::new();
        let mut i: usize = 0;
        while i < draws.len()
            invariant
                i <= draws@.len(),
                cells@.len() == i,
                forall|k: int| 0 <= k < i ==> cells@[k] == seeded(draws@, alive_odds as int)[k],
            decreases draws@.len() - i,
        {
            let c = if (draws[i] as u128) < alive_odds {
                Cell::Alive
            } else {
                Cell::Dead
            };
            cells.push(c);
            i = i + 1;
        }
        proof {
            assert(cells@ =~= seeded(draws@, alive_odds as int));
        }
        match Grid::from_cells(width, height, cells) {
            Ok(grid) => Ok(Universe { grid }),
            Err(e) => Err(e),
        }
    }

    /// A universe whose cells are each alive with odds `alive_odds` (in units
    /// of 2^-64), drawn from a random source started from `seed`. Whatever the
    /// draws, the cells are those that some draws give; odds of `CERTAIN` or
    /// more make every cell alive, and odds of zero none.
    pub fn new(width: u32, height: u32, alive_odds: u128, seed: u64) -> (r: Result<Universe, LifeError>)
        requires
            width as nat * height as nat <= usize::MAX,
            seed != 0,
        ensures
            (width == 0 || height == 0) <==> r is Err,
            r is Err ==> r->Err_0 == LifeError::InvalidDimension,
            r is Ok ==> {
                let g = r->Ok_0.spec_grid();
                &&& g.wf()
                &&& g.spec_width() == width
                &&& g.spec_height() == height
                &&& exists|d: Seq<u64>| d.len() == g@.len() && g@ == seeded(d, alive_odds as int)
                &&& alive_odds >= CERTAIN ==> forall|i: int| 0 <= i < g@.len() ==> g@[i] == Cell::Alive
                &&& alive_odds == 0 ==> forall|i: int| 0 <= i < g@.len() ==> g@[i] == Cell::Dead
            },
    {
        if width == 0 || height == 0 {
            return Err(LifeError::InvalidDimension);
        }
        let n: usize = width as usize * height as usize;
        let mut source = random::default().seed([seed, 0]);
        let mut draws: Vec<u64> = Vec::new();
        while draws.len() < n
            invariant
                draws@.len() <= n,
            decreases n - draws@.len(),
        {
            draws.push(draw(&mut source));
        }
        let r = Universe::from_draws(width, height, alive_odds, &draws);
        proof {
            let g = r->Ok_0.spec_grid();
            assert(g@ == seeded(draws@, alive_odds as int));
            assert(forall|i: int| 0 <= i < draws@.len() ==> (draws@[i] as int) < CERTAIN);
        }
        r
    }

    /// The grid of the current generation.
    pub fn grid(&self) -> (r: &Grid)
        ensures
            *r == self.spec_grid(),
    {
        &self.grid
    }

    /// Advances the universe by one generation.
    pub fn tick(&mut self)
        requires
            old(self).wf(),
        ensures
            final(self).wf(),
            final(self).spec_grid().spec_width() == old(self).spec_grid().spec_width(),
            final(self).spec_grid().spec_height() == old(self).spec_grid().spec_height(),
            final(self).spec_grid()@ == next_cells(
                old(self).spec_grid()@,
                old(self).spec_grid().spec_width(),
                old(self).spec_grid().spec_height(),
            ),
    {
        self.grid = self.grid.next_generation();
    }

    /// Flips the cell in column `x` of row `y`; coordinates outside the grid
    /// are refused and change nothing.
    pub fn toggle(&mut self, x: u32, y: u32) -> (r: Result<(), LifeError>)
        requires
            old(self).wf(),
        ensures
            final(self).wf(),
            final(self).spec_grid().spec_width() == old(self).spec_grid().spec_width(),
            final(self).spec_grid().spec_height() == old(self).spec_grid().spec_height(),
            (x >= old(self).spec_grid().spec_width() || y >= old(self).spec_grid().spec_height()) <==> r is Err,
            r is Err ==> r->Err_0 == LifeError::OutOfBounds && final(self).spec_grid()@ == old(self).spec_grid()@,
            r is Ok ==> final(self).spec_grid()@ == old(self).spec_grid()@.update(
                index_of(old(self).spec_grid().spec_width(), y as int, x as int),
                flip(old(self).spec_grid().at(y as int, x as int)),
            ),
    {
        if x >= self.grid.width() || y >= self.grid.height() {
            return Err(LifeError::OutOfBounds);
        }
        let c = match self.grid.get(y, x) {
            Cell::Alive => Cell::Dead,
            Cell::Dead => Cell::Alive,
        };
        self.grid.set(y, x, c);
        Ok(())
    }

    /// Flips the cell in column `x` of row `y`, as a click on it does; a
    /// click outside the grid changes nothing.
    pub fn click(&mut self, x: u32, y: u32)
        requires
            old(self).wf(),
        ensures
            final(self).wf(),
            final(self).spec_grid().spec_width() == old(self).spec_grid().spec_width(),
            final(self).spec_grid().spec_height() == old(self).spec_grid().spec_height(),
            x < old(self).spec_grid().spec_width() && y < old(self).spec_grid().spec_height()
                ==> final(self).spec_grid()@ == old(self).spec_grid()@.update(
                    index_of(old(self).spec_grid().spec_width(), y as int, x as int),
                    flip(old(self).spec_grid().at(y as int, x as int)),
                ),
            !(x < old(self).spec_grid().spec_width() && y < old(self).spec_grid().spec_height())
                ==> final(self).spec_grid()@ == old(self).spec_grid()@,
    {
        let _ = self.toggle(x, y);
    }

    /// The instructions that draw the current generation, cells
    /// `CELL_SIZE` pixels across.
    pub fn render(&self) -> (r: Vec<DrawOp>)
        requires
            self.wf(),
        ensures
            r@ == drawing(
                self.spec_grid()@,
                self.spec_grid().spec_width(),
                self.spec_grid().spec_height(),
                CELL_SIZE as nat,
            ),
    {
        render(&self.grid, CELL_SIZE)
    }

    /// The side of one cell on the drawing surface, in pixels.
    pub fn get_cell_size(&self) -> (r: u32)
        ensures
            r == CELL_SIZE,
    {
        CELL_SIZE
    }
}

} // verus!
