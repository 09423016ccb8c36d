use crate::grid::{Cell, Grid};
use vstd::prelude::*;

verus! {

/// The two colours a drawing uses.
#[derive(Clone, Copy, Debug, PartialEq, Eq, Structural)]
pub enum Color {
    /// The background.
    White,
    /// Live cells.
    Black,
}

/// One instruction for a drawing surface; coordinates and sizes in pixels.
#[derive(Clone, Copy, Debug, PartialEq, Eq, Structural)]
pub enum DrawOp {
    /// Fill what follows in this colour.
    SetFillColor(Color),
    /// Clear a rectangle to the background.
    ClearRect { x: u64, y: u64, w: u64, h: u64 },
    /// Fill a rectangle in the current colour.
    FillRect { x: u64, y: u64, w: u64, h: u64 },
}

/// The square that shows the cell at buffer position `i`.
pub open spec fn cell_square(width: nat, cell_size: nat, i: int) -> DrawOp {
    DrawOp::FillRect {
        x: ((i % (width as int)) * cell_size) as u64,
        y: ((i / (width as int)) * cell_size) as u64,
        w: cell_size as u64,
        h: cell_size as u64,
    }
}

/// The squares of the live cells among the first `n` of the buffer, in
/// buffer order.
pub open spec fn live_squares(cells: Seq<Cell>, width: nat, cell_size: nat, n: nat) -> Seq<DrawOp>
    decreases n,
{
    if n == 0 {
        seq![]
    } else {
        let before = live_squares(cells, width, cell_size, (n - 1) as nat);
        if cells[n - 1] is Alive {
            before.push(cell_square(width, cell_size, n - 1))
        } else {
            before
        }
    }
}

/// What clears the whole surface before the cells are drawn.
pub open spec fn background(width: nat, height: nat, cell_size: nat) -> Seq<DrawOp> {
    seq![
        DrawOp::SetFillColor(Color::White),
        DrawOp::ClearRect { x: 0, y: 0, w: (width * cell_size) as u64, h: (height * cell_size) as u64 },
        DrawOp::SetFillColor(Color::Black),
    ]
}

/// The drawing of a grid: the surface cleared, then one square per live cell.
pub open spec fn drawing(cells: Seq<Cell>, width: nat, height: nat, cell_size: nat) -> Seq<DrawOp> {
    background(width, height, cell_size) + live_squares(cells, width, cell_size, cells.len())
}

proof fn lemma_product_fits(a: u32, b: u32)
    ensures
        a as nat * b as nat <= u64::MAX,
{
    assert(a as nat * b as nat <= 0xffff_ffff * 0xffff_ffff) by (nonlinear_arith)
        requires
            a <= 0xffff_ffff,
            b <= 0xffff_ffff,
    ;
}

/// The instructions that draw `grid` with cells `cell_size` pixels across:
/// clear the surface to the background, then fill a square for each live
/// cell in ascending buffer order.
pub fn render(grid: &Grid, cell_size: u32) -> (r: Vec<DrawOp>)
    requires
        grid.wf(),
    ensures
        r@ == drawing(grid@, grid.spec_width(), grid.spec_height(), cell_size as nat),
{
    let width = grid.width();
    let height = grid.height();
    let ghost w = width as nat;
    let ghost h = height as nat;
    let ghost cs = cell_size as nat;
    let cells = grid.cells();
    proof {
        lemma_product_fits(width, cell_size);
        lemma_product_fits(height, cell_size);
    }
    let mut ops: Vec<DrawOp> = Vec::new();
    ops.push(DrawOp::SetFillColor(Color::White));
    ops.push(
        DrawOp::ClearRect {
            x: 0,
            y: 0,
            w: width as u64 * cell_size as u64,
            h: height as u64 * cell_size as u64,
        },
    );
    ops.push(DrawOp::SetFillColor(Color::Black));
    proof {
        assert(ops@ =~= background(w, h, cs) + live_squares(grid@, w, cs, 0));
    }
    let mut row: u32 = 0;
    while row < height
        invariant
            grid.wf(),
            w == grid.spec_width(),
            h == grid.spec_height(),
            width == w,
            height == h,
            cs == cell_size,
            cells@ == grid@,
            row <= h,
            ops@ == background(w, h, cs) + live_squares(grid@, w, cs, (row * w) as nat),
        decreases h - row,
    {
        let mut col: u32 = 0;
        while col < width
            invariant
                grid.wf(),
                w == grid.spec_width(),
                h == grid.spec_height(),
                width == w,
                height == h,
                cs == cell_size,
                cells@ == grid@,
                row < h,
                col <= w,
                ops@ == background(w, h, cs) + live_squares(grid@, w, cs, (row * w + col) as nat),
            decreases w - col,
        {
            let ghost k = row * w + col;
            proof {
                assert(0 <= k < w * h) by (nonlinear_arith)
                    requires
                        k == row * w + col,
                        row < h,
                        col < w,
                ;
                vstd::arithmetic::div_mod::lemma_fundamental_div_mod_converse(
                    k,
                    w as int,
                    row as int,
                    col as int,
                );
            }
            proof {
                lemma_product_fits(col, cell_size);
                lemma_product_fits(row, cell_size);
            }
            let i: usize = row as usize * width as usize + col as usize;
            if cells[i] == Cell::Alive {
                ops.push(
                    DrawOp::FillRect {
                        x: col as u64 * cell_size as u64,
                        y: row as u64 * cell_size as u64,
                        w: cell_size as u64,
                        h: cell_size as u64,
                    },
                );
            }
            proof {
                let before = background(w, h, cs);
                let squares = live_squares(grid@, w, cs, (k + 1) as nat);
                assert(ops@ =~= before + squares);
            }
            col = col + 1;
        }
        proof {
            assert((row + 1) * w == row * w + w) by (nonlinear_arith);
        }
        row = row + 1;
    }
    proof {
        assert(h * w == w * h) by (nonlinear_arith);
    }
    ops
}

} // verus!
