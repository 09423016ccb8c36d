use crate::grid::{index_of, neighbors, next_cells, Cell};
use vstd::prelude::*;

verus! {

/// The row-major buffer of a `width` x `height` grid whose live cells are
/// the positions `(row, col)` where `live(row, col)` holds.
pub open spec fn from_pattern(width: nat, height: nat, live: spec_fn(int, int) -> bool) -> Seq<Cell> {
    Seq::new(
        width * height,
        |i: int|
            if live(i / (width as int), i % (width as int)) {
                Cell::Alive
            } else {
                Cell::Dead
            },
    )
}

/// A blinker lying flat: row 2, columns 1 to 3.
pub open spec fn flat_blinker(row: int, col: int) -> bool {
    row == 2 && 1 <= col <= 3
}

/// A blinker standing upright: column 2, rows 1 to 3.
pub open spec fn upright_blinker(row: int, col: int) -> bool {
    col == 2 && 1 <= row <= 3
}

/// A 2 x 2 block: rows 1 and 2, columns 1 and 2.
pub open spec fn block(row: int, col: int) -> bool {
    1 <= row <= 2 && 1 <= col <= 2
}

/// A glider: rows 1 to 3, columns 1 to 3, heading towards higher rows and
/// columns.
pub open spec fn glider(row: int, col: int) -> bool {
    (row == 1 && col == 2) || (row == 2 && col == 3) || (row == 3 && 1 <= col <= 3)
}

spec fn glider_phase_one(row: int, col: int) -> bool {
    (row == 2 && (col == 1 || col == 3)) || (row == 3 && (col == 2 || col == 3)) || (row == 4 && col == 2)
}

spec fn glider_phase_two(row: int, col: int) -> bool {
    (row == 2 && col == 3) || (row == 3 && (col == 1 || col == 3)) || (row == 4 && (col == 2 || col == 3))
}

spec fn glider_phase_three(row: int, col: int) -> bool {
    (row == 2 && col == 2) || (row == 3 && (col == 3 || col == 4)) || (row == 4 && (col == 2 || col == 3))
}

/// The buffer after `n` generations from `cells`.
pub open spec fn after_ticks(cells: Seq<Cell>, width: nat, height: nat, n: nat) -> Seq<Cell>
    decreases n,
{
    if n == 0 {
        cells
    } else {
        next_cells(after_ticks(cells, width, height, (n - 1) as nat), width, height)
    }
}

/// The row before `r` on a torus of `n` rows.
spec fn before(r: int, n: int) -> int {
    if r == 0 {
        n - 1
    } else {
        r - 1
    }
}

/// The row after `r` on a torus of `n` rows.
spec fn after(r: int, n: int) -> int {
    if r + 1 == n {
        0
    } else {
        r + 1
    }
}

spec fn live_value(live: spec_fn(int, int) -> bool, row: int, col: int) -> nat {
    if live(row, col) {
        1
    } else {
        0
    }
}

/// The live neighbours of `(r, c)` under the pattern `live`, with the eight
/// surrounding positions written out.
spec fn pattern_neighbors(live: spec_fn(int, int) -> bool, width: int, height: int, r: int, c: int) -> nat {
    let (u, d) = (before(r, height), after(r, height));
    let (l, rt) = (before(c, width), after(c, width));
    live_value(live, u, l) + live_value(live, u, c) + live_value(live, u, rt) + live_value(live, r, l)
        + live_value(live, r, rt) + live_value(live, d, l) + live_value(live, d, c) + live_value(live, d, rt)
}

proof fn lemma_wrap(x: int, n: int)
    requires
        n >= 1,
        0 <= x < 2 * n,
    ensures
        x % n == if x < n {
            x
        } else {
            x - n
        },
{
    if x < n {
        vstd::arithmetic::div_mod::lemma_fundamental_div_mod_converse(x, n, 0, x);
    } else {
        vstd::arithmetic::div_mod::lemma_fundamental_div_mod_converse(x, n, 1, x - n);
    }
}

proof fn lemma_coords(i: int, width: nat, height: nat)
    requires
        width >= 1,
        0 <= i < width * height,
    ensures
        0 <= i / (width as int) < height,
        0 <= i % (width as int) < width,
        i == index_of(width, i / (width as int), i % (width as int)),
{
    let w = width as int;
    vstd::arithmetic::div_mod::lemma_fundamental_div_mod(i, w);
    vstd::arithmetic::div_mod::lemma_mod_pos_bound(i, w);
    let q = i / w;
    let r = i % w;
    assert(0 <= q < height) by (nonlinear_arith)
        requires
            i == w * q + r,
            0 <= r < w,
            0 <= i < w * height,
    ;
    assert(i == q * w + r) by (nonlinear_arith)
        requires
            i == w * q + r,
    ;
}

proof fn lemma_pattern_at(width: nat, height: nat, live: spec_fn(int, int) -> bool, row: int, col: int)
    requires
        0 <= row < height,
        0 <= col < width,
    ensures
        0 <= index_of(width, row, col) < width * height,
        from_pattern(width, height, live)[index_of(width, row, col)] == if live(row, col) {
            Cell::Alive
        } else {
            Cell::Dead
        },
{
    let k = index_of(width, row, col);
    assert(0 <= k < width * height) by (nonlinear_arith)
        requires
            k == row * width + col,
            0 <= row < height,
            0 <= col < width,
    ;
    vstd::arithmetic::div_mod::lemma_fundamental_div_mod_converse(k, width as int, row, col);
}

proof fn lemma_pattern_neighbors(width: nat, height: nat, live: spec_fn(int, int) -> bool, r: int, c: int)
    requires
        width >= 2,
        height >= 2,
        0 <= r < height,
        0 <= c < width,
    ensures
        neighbors(from_pattern(width, height, live), width, height, r, c) == pattern_neighbors(
            live,
            width as int,
            height as int,
            r,
            c,
        ),
{
    let w = width as int;
    let h = height as int;
    lemma_wrap(r + (h - 1), h);
    lemma_wrap(r + 0, h);
    lemma_wrap(r + 1, h);
    lemma_wrap(c + (w - 1), w);
    lemma_wrap(c + 0, w);
    lemma_wrap(c + 1, w);
    let (u, d) = (before(r, h), after(r, h));
    let (l, rt) = (before(c, w), after(c, w));
    lemma_pattern_at(width, height, live, u, l);
    lemma_pattern_at(width, height, live, u, c);
    lemma_pattern_at(width, height, live, u, rt);
    lemma_pattern_at(width, height, live, r, l);
    lemma_pattern_at(width, height, live, r, rt);
    lemma_pattern_at(width, height, live, d, l);
    lemma_pattern_at(width, height, live, d, c);
    lemma_pattern_at(width, height, live, d, rt);
}

/// One generation leaves a block as it is, on any grid at least 4 x 4.
#[verifier::spinoff_prover]
proof fn lemma_block_step(width: nat, height: nat)
    requires
        width >= 4,
        height >= 4,
    ensures
        next_cells(from_pattern(width, height, |r: int, c: int| block(r, c)), width, height)
            == from_pattern(width, height, |r: int, c: int| block(r, c)),
{
    let still = |r: int, c: int| block(r, c);
    let a = from_pattern(width, height, still);
    assert forall|i: int| 0 <= i < a.len() implies next_cells(a, width, height)[i] == a[i] by {
        lemma_coords(i, width, height);
        lemma_pattern_neighbors(width, height, still, i / (width as int), i % (width as int));
    }
    assert(next_cells(a, width, height) =~= a);
}

/// A block is still: on any grid at least 4 x 4, it is unchanged by any
/// number of generations.
pub proof fn lemma_block_is_still(width: nat, height: nat, n: nat)
    requires
        width >= 4,
        height >= 4,
    ensures
        after_ticks(from_pattern(width, height, |r: int, c: int| block(r, c)), width, height, n)
            == from_pattern(width, height, |r: int, c: int| block(r, c)),
    decreases n,
{
    if n > 0 {
        lemma_block_is_still(width, height, (n - 1) as nat);
        lemma_block_step(width, height);
    }
}

/// The glider's first generation.
#[verifier::spinoff_prover]
proof fn lemma_glider_first_step(width: nat, height: nat)
    requires
        width >= 6,
        height >= 6,
    ensures
        next_cells(from_pattern(width, height, |r: int, c: int| glider(r, c)), width, height)
            == from_pattern(width, height, |r: int, c: int| glider_phase_one(r, c)),
{
    let from = |r: int, c: int| glider(r, c);
    let a = from_pattern(width, height, from);
    let b = from_pattern(width, height, |r: int, c: int| glider_phase_one(r, c));
    assert forall|i: int| 0 <= i < a.len() implies next_cells(a, width, height)[i] == b[i] by {
        lemma_coords(i, width, height);
        lemma_pattern_neighbors(width, height, from, i / (width as int), i % (width as int));
    }
    assert(next_cells(a, width, height) =~= b);
}

/// The glider's second generation.
#[verifier::spinoff_prover]
proof fn lemma_glider_second_step(width: nat, height: nat)
    requires
        width >= 6,
        height >= 6,
    ensures
        next_cells(from_pattern(width, height, |r: int, c: int| glider_phase_one(r, c)), width, height)
            == from_pattern(width, height, |r: int, c: int| glider_phase_two(r, c)),
{
    let from = |r: int, c: int| glider_phase_one(r, c);
    let a = from_pattern(width, height, from);
    let b = from_pattern(width, height, |r: int, c: int| glider_phase_two(r, c));
    assert forall|i: int| 0 <= i < a.len() implies next_cells(a, width, height)[i] == b[i] by {
        lemma_coords(i, width, height);
        lemma_pattern_neighbors(width, height, from, i / (width as int), i % (width as int));
    }
    assert(next_cells(a, width, height) =~= b);
}

/// The glider's third generation.
#[verifier::spinoff_prover]
proof fn lemma_glider_third_step(width: nat, height: nat)
    requires
        width >= 6,
        height >= 6,
    ensures
        next_cells(from_pattern(width, height, |r: int, c: int| glider_phase_two(r, c)), width, height)
            == from_pattern(width, height, |r: int, c: int| glider_phase_three(r, c)),
{
    let from = |r: int, c: int| glider_phase_two(r, c);
    let a = from_pattern(width, height, from);
    let b = from_pattern(width, height, |r: int, c: int| glider_phase_three(r, c));
    assert forall|i: int| 0 <= i < a.len() implies next_cells(a, width, height)[i] == b[i] by {
        lemma_coords(i, width, height);
        lemma_pattern_neighbors(width, height, from, i / (width as int), i % (width as int));
    }
    assert(next_cells(a, width, height) =~= b);
}

/// The glider's fourth generation: the first phase again, one row and one column on.
#[verifier::spinoff_prover]
proof fn lemma_glider_fourth_step(width: nat, height: nat)
    requires
        width >= 6,
        height >= 6,
    ensures
        next_cells(from_pattern(width, height, |r: int, c: int| glider_phase_three(r, c)), width, height)
            == from_pattern(width, height, |r: int, c: int| glider(r - 1, c - 1)),
{
    let from = |r: int, c: int| glider_phase_three(r, c);
    let a = from_pattern(width, height, from);
    let b = from_pattern(width, height, |r: int, c: int| glider(r - 1, c - 1));
    assert forall|i: int| 0 <= i < a.len() implies next_cells(a, width, height)[i] == b[i] by {
        lemma_coords(i, width, height);
        lemma_pattern_neighbors(width, height, from, i / (width as int), i % (width as int));
    }
    assert(next_cells(a, width, height) =~= b);
}

/// A glider travels: on any grid at least 6 x 6, four generations move it
/// one row down and one column right.
pub proof fn lemma_glider_travels(width: nat, height: nat)
    requires
        width >= 6,
        height >= 6,
    ensures
        after_ticks(from_pattern(width, height, |r: int, c: int| glider(r, c)), width, height, 4)
            == from_pattern(width, height, |r: int, c: int| glider(r - 1, c - 1)),
{
    let s = from_pattern(width, height, |r: int, c: int| glider(r, c));
    lemma_glider_first_step(width, height);
    lemma_glider_second_step(width, height);
    lemma_glider_third_step(width, height);
    lemma_glider_fourth_step(width, height);
    assert(after_ticks(s, width, height, 0) == s);
    assert(after_ticks(s, width, height, 1) == next_cells(s, width, height));
    assert(after_ticks(s, width, height, 1) == from_pattern(width, height, |r: int, c: int| glider_phase_one(r, c)));
    assert(after_ticks(s, width, height, 2) == from_pattern(width, height, |r: int, c: int| glider_phase_two(r, c)));
    assert(after_ticks(s, width, height, 3) == from_pattern(width, height, |r: int, c: int| glider_phase_three(r, c)));
}

#[verifier::spinoff_prover]
/// A blinker has period two: on any grid at least 5 x 5, one generation
/// turns the flat blinker upright, and the next lays it flat again.
pub proof fn lemma_blinker_oscillates(width: nat, height: nat)
    requires
        width >= 5,
        height >= 5,
    ensures
        next_cells(from_pattern(width, height, |r: int, c: int| flat_blinker(r, c)), width, height)
            == from_pattern(width, height, |r: int, c: int| upright_blinker(r, c)),
        next_cells(from_pattern(width, height, |r: int, c: int| upright_blinker(r, c)), width, height)
            == from_pattern(width, height, |r: int, c: int| flat_blinker(r, c)),
{
    let flat = |r: int, c: int| flat_blinker(r, c);
    let upright = |r: int, c: int| upright_blinker(r, c);
    let a = from_pattern(width, height, flat);
    let b = from_pattern(width, height, upright);
    assert forall|i: int| 0 <= i < a.len() implies next_cells(a, width, height)[i] == b[i] by {
        lemma_coords(i, width, height);
        lemma_pattern_neighbors(width, height, flat, i / (width as int), i % (width as int));
    }
    assert(next_cells(a, width, height) =~= b);
    assert forall|i: int| 0 <= i < b.len() implies next_cells(b, width, height)[i] == a[i] by {
        lemma_coords(i, width, height);
        lemma_pattern_neighbors(width, height, upright, i / (width as int), i % (width as int));
    }
    assert(next_cells(b, width, height) =~= a);
}

} // verus!
