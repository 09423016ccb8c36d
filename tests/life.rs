use conway::grid::{Cell, Grid, LifeError};
use conway::render::{render, Color, DrawOp};
use conway::universe::{Universe, CELL_SIZE, CERTAIN};

fn grid_with(width: u32, height: u32, live: &[(u32, u32)]) -> Grid {
    let mut g = Grid::new(width, height).unwrap();
    for &(row, col) in live {
        g.set(row, col, Cell::Alive);
    }
    g
}

fn live_cells(g: &Grid) -> Vec<(u32, u32)> {
    let mut out = Vec::new();
    for row in 0..g.height() {
        for col in 0..g.width() {
            if g.get(row, col) == Cell::Alive {
                out.push((row, col));
            }
        }
    }
    out
}

#[test]
fn new_grid_is_dead() {
    let g = Grid::new(4, 3).unwrap();
    assert_eq!(g.width(), 4);
    assert_eq!(g.height(), 3);
    assert_eq!(g.cells().len(), 12);
    assert!(g.cells().iter().all(|c| *c == Cell::Dead));
}

#[test]
fn zero_dimension_is_refused() {
    assert_eq!(Grid::new(0, 5).err(), Some(LifeError::InvalidDimension));
    assert_eq!(Grid::new(5, 0).err(), Some(LifeError::InvalidDimension));
    assert!(Universe::new(0, 3, CERTAIN, 7).is_err());
    assert!(Universe::from_draws(3, 0, 5, &vec![]).is_err());
}

#[test]
fn set_and_get_are_row_major() {
    let g = grid_with(3, 2, &[(1, 2)]);
    assert_eq!(g.get(1, 2), Cell::Alive);
    assert_eq!(g.cells()[5], Cell::Alive);
    assert_eq!(g.cells().iter().filter(|c| **c == Cell::Alive).count(), 1);
}

#[test]
fn neighbor_count_stays_within_eight() {
    for &(w, h) in &[(1u32, 1u32), (1, 2), (2, 1), (2, 2), (3, 3), (5, 4)] {
        let live: Vec<(u32, u32)> = (0..h).flat_map(|r| (0..w).map(move |c| (r, c))).collect();
        let g = grid_with(w, h, &live);
        for row in 0..h {
            for col in 0..w {
                assert!(g.neighbor_count(row, col) <= 8);
            }
        }
    }
    let full = grid_with(3, 3, &[(0, 0), (0, 1), (0, 2), (1, 0), (1, 1), (1, 2), (2, 0), (2, 1), (2, 2)]);
    assert_eq!(full.neighbor_count(1, 1), 8);
}

#[test]
fn tiny_grids_count_a_cell_once_per_offset() {
    let one = grid_with(1, 1, &[(0, 0)]);
    assert_eq!(one.neighbor_count(0, 0), 5);
    let four = grid_with(2, 2, &[(0, 0), (0, 1), (1, 0), (1, 1)]);
    assert_eq!(four.neighbor_count(0, 0), 8);
}

#[test]
fn corner_wraps_around() {
    let g = grid_with(5, 4, &[(0, 0)]);
    assert_eq!(g.neighbor_count(3, 4), 1);
    assert_eq!(g.neighbor_count(3, 0), 1);
    assert_eq!(g.neighbor_count(0, 4), 1);
    assert_eq!(g.neighbor_count(1, 1), 1);
    assert_eq!(g.neighbor_count(2, 2), 0);
}

#[test]
fn isolated_cell_dies() {
    let mut u = Universe::from_grid(grid_with(3, 3, &[(1, 1)]));
    u.tick();
    assert!(u.grid().cells().iter().all(|c| *c == Cell::Dead));
}

#[test]
fn certain_odds_fill_the_grid() {
    let u = Universe::new(10, 10, CERTAIN, 1).unwrap();
    assert_eq!(u.grid().width(), 10);
    assert_eq!(u.grid().height(), 10);
    assert_eq!(u.grid().cells().len(), 100);
    assert!(u.grid().cells().iter().all(|c| *c == Cell::Alive));
}

#[test]
fn zero_odds_leave_the_grid_dead() {
    let u = Universe::new(6, 7, 0, 12345).unwrap();
    assert_eq!(u.grid().cells().len(), 42);
    assert!(u.grid().cells().iter().all(|c| *c == Cell::Dead));
}

#[test]
fn draws_below_the_odds_are_alive() {
    let u = Universe::from_draws(2, 2, 100, &vec![99, 100, 0, u64::MAX]).unwrap();
    assert_eq!(u.grid().cells(), &vec![Cell::Alive, Cell::Dead, Cell::Alive, Cell::Dead]);
}

#[test]
fn glider_moves_one_cell_diagonally_in_four_ticks() {
    let glider = [(0u32, 1u32), (1, 2), (2, 0), (2, 1), (2, 2)];
    let start: Vec<(u32, u32)> = glider.iter().map(|&(r, c)| (r + 2, c + 2)).collect();
    let mut u = Universe::from_grid(grid_with(8, 8, &start));
    for _ in 0..4 {
        u.tick();
    }
    let mut moved: Vec<(u32, u32)> = glider.iter().map(|&(r, c)| (r + 3, c + 3)).collect();
    moved.sort();
    assert_eq!(live_cells(u.grid()), moved);
}

#[test]
fn block_is_still() {
    let block = vec![(2u32, 2u32), (2, 3), (3, 2), (3, 3)];
    let mut u = Universe::from_grid(grid_with(6, 6, &block));
    for _ in 0..5 {
        u.tick();
        assert_eq!(live_cells(u.grid()), block);
    }
}

#[test]
fn blinker_has_period_two() {
    let flat = vec![(2u32, 1u32), (2, 2), (2, 3)];
    let upright = vec![(1u32, 2u32), (2, 2), (3, 2)];
    let mut u = Universe::from_grid(grid_with(5, 5, &flat));
    for _ in 0..3 {
        u.tick();
        assert_eq!(live_cells(u.grid()), upright);
        u.tick();
        assert_eq!(live_cells(u.grid()), flat);
    }
}

#[test]
fn toggle_twice_restores() {
    let mut u = Universe::from_grid(grid_with(4, 3, &[(1, 1)]));
    let before = u.grid().cells().clone();
    assert_eq!(u.toggle(3, 2), Ok(()));
    assert_eq!(u.grid().get(2, 3), Cell::Alive);
    assert_eq!(u.toggle(3, 2), Ok(()));
    assert_eq!(u.grid().cells(), &before);
    assert_eq!(u.toggle(1, 1), Ok(()));
    assert_eq!(u.grid().get(1, 1), Cell::Dead);
}

#[test]
fn toggle_outside_is_refused() {
    let mut u = Universe::from_grid(grid_with(4, 3, &[(0, 0)]));
    let before = u.grid().cells().clone();
    assert_eq!(u.toggle(4, 0), Err(LifeError::OutOfBounds));
    assert_eq!(u.toggle(0, 3), Err(LifeError::OutOfBounds));
    assert_eq!(u.grid().cells(), &before);
}

#[test]
fn click_flips_inside_and_ignores_outside() {
    let mut u = Universe::from_grid(grid_with(3, 3, &[]));
    u.click(2, 0);
    assert_eq!(live_cells(u.grid()), vec![(0, 2)]);
    u.click(3, 0);
    assert_eq!(live_cells(u.grid()), vec![(0, 2)]);
    u.click(2, 0);
    assert!(live_cells(u.grid()).is_empty());
}

#[test]
fn cell_size_is_ten() {
    let u = Universe::from_grid(grid_with(2, 2, &[]));
    assert_eq!(u.get_cell_size(), 10);
    assert_eq!(CELL_SIZE, 10);
}

#[test]
fn render_clears_then_fills_live_cells_in_order() {
    let u = Universe::from_grid(grid_with(2, 2, &[(1, 0), (0, 1)]));
    let ops = u.render();
    assert_eq!(
        ops,
        vec![
            DrawOp::SetFillColor(Color::White),
            DrawOp::ClearRect { x: 0, y: 0, w: 20, h: 20 },
            DrawOp::SetFillColor(Color::Black),
            DrawOp::FillRect { x: 10, y: 0, w: 10, h: 10 },
            DrawOp::FillRect { x: 0, y: 10, w: 10, h: 10 },
        ]
    );
}

#[test]
fn render_of_dead_grid_only_clears() {
    let g = grid_with(3, 2, &[]);
    let ops = render(&g, 4);
    assert_eq!(
        ops,
        vec![
            DrawOp::SetFillColor(Color::White),
            DrawOp::ClearRect { x: 0, y: 0, w: 12, h: 8 },
            DrawOp::SetFillColor(Color::Black),
        ]
    );
}

#[test]
fn next_generation_leaves_the_source_alone() {
    let g = grid_with(5, 5, &[(2, 1), (2, 2), (2, 3)]);
    let n = g.next_generation();
    assert_eq!(live_cells(&g), vec![(2, 1), (2, 2), (2, 3)]);
    assert_eq!(live_cells(&n), vec![(1, 2), (2, 2), (3, 2)]);
    assert_eq!(n.width(), 5);
    assert_eq!(n.height(), 5);
}
