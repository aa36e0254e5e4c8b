//! The rule of the game: how one generation follows from the one before.
//!
//! The grid is a torus. A cell on an edge has neighbours on the opposite
//! edge, so every cell has eight neighbours, counted with repetition when a
//! dimension is so small that two of them are the same cell.

use vstd::prelude::*;
use vstd::arithmetic::div_mod::lemma_fundamental_div_mod_converse;
use crate::grid::{is_grid, rows_of, Grid};

verus! {

/// The index in `0..n` that `i` stands for on a ring of `n` positions: the
/// remainder of `i` by `n`, which is never negative.
pub open spec fn wrap(i: int, n: int) -> int {
    i % n
}

/// Whether the cell that `(row, col)` wraps to is alive.
pub open spec fn alive_at(cells: Seq<Seq<bool>>, row: int, col: int) -> bool {
    cells[wrap(row, cells.len() as int)][wrap(col, cells[0].len() as int)]
}

/// One for a live cell, nothing for a dead one.
pub open spec fn census(alive: bool) -> int {
    if alive {
        1
    } else {
        0
    }
}

/// How many of the eight cells around `(row, col)` are alive.
pub open spec fn live_neighbors(cells: Seq<Seq<bool>>, row: int, col: int) -> int {
    census(alive_at(cells, row, col - 1)) + census(alive_at(cells, row, col + 1))
        + census(alive_at(cells, row - 1, col - 1)) + census(alive_at(cells, row - 1, col))
        + census(alive_at(cells, row - 1, col + 1)) + census(alive_at(cells, row + 1, col - 1))
        + census(alive_at(cells, row + 1, col)) + census(alive_at(cells, row + 1, col + 1))
}

/// The rule: a live cell stays alive with two or three live neighbours, a
/// dead cell comes alive with exactly three, and every other cell is dead.
pub open spec fn rule(alive: bool, neighbors: int) -> bool {
    (alive && (neighbors == 2 || neighbors == 3)) || (!alive && neighbors == 3)
}

/// The generation after `cells`: the rule applied to every cell at once, each
/// against the neighbours it has in `cells`.
pub open spec fn next_generation(cells: Seq<Seq<bool>>) -> Seq<Seq<bool>> {
    Seq::new(
        cells.len(),
        |r: int|
            Seq::new(cells[0].len(), |c: int| rule(cells[r][c], live_neighbors(cells, r, c))),
    )
}

/// Wrapping moves an index that is at most one ring off back by one ring.
pub proof fn lemma_wrap(i: int, n: int)
    requires
        0 < n,
        -n <= i < 2 * n,
    ensures
        wrap(i, n) == if i < 0 {
            i + n
        } else if i < n {
            i
        } else {
            i - n
        },
{
    if i < 0 {
        lemma_fundamental_div_mod_converse(i, n, -1, i + n);
    } else if i < n {
        lemma_fundamental_div_mod_converse(i, n, 0, i);
    } else {
        lemma_fundamental_div_mod_converse(i, n, 1, i - n);
    }
}

/// The generation after a grid is a grid of the same dimensions.
pub proof fn lemma_next_generation_keeps_dimensions(cells: Seq<Seq<bool>>)
    requires
        is_grid(cells),
    ensures
        is_grid(next_generation(cells)),
        next_generation(cells).len() == cells.len(),
        forall|r: int|
            0 <= r < cells.len() ==> (#[trigger] next_generation(cells)[r]).len() == cells[r].len(),
{
}

/// A step has one outcome: two grids that each are the generation after the
/// same grid hold the same cells.
pub proof fn lemma_step_has_one_outcome(grid: Grid, first: Grid, second: Grid)
    requires
        first@ == next_generation(grid@),
        second@ == next_generation(grid@),
    ensures
        first@ == second@,
{
}

/// The position before `i` on a ring of `n`.
fn before(i: usize, n: usize) -> (j: usize)
    requires
        i < n,
    ensures
        j < n,
        j == wrap(i - 1, n as int),
{
    proof {
        lemma_wrap(i - 1, n as int);
    }
    if i == 0 {
        n - 1
    } else {
        i - 1
    }
}

/// The position after `i` on a ring of `n`.
fn after(i: usize, n: usize) -> (j: usize)
    requires
        i < n,
    ensures
        j < n,
        j == wrap(i + 1, n as int),
{
    proof {
        lemma_wrap(i + 1, n as int);
    }
    if i + 1 == n {
        0
    } else {
        i + 1
    }
}

/// Applies the rule to one cell.
pub fn apply_rule(alive: bool, neighbors: u8) -> (next: bool)
    ensures
        next == rule(alive, neighbors as int),
{
    if neighbors < 2 || neighbors > 3 {
        false
    } else if alive {
        true
    } else {
        neighbors == 3
    }
}

/// Adds one to the count for a live cell.
fn tally(count: u8, alive: bool) -> (sum: u8)
    requires
        count < 8,
    ensures
        sum == count + census(alive),
{
    if alive {
        count + 1
    } else {
        count
    }
}

/// Counts the live cells around `(row, col)` in a grid given by its rows.
fn count_neighbors(rows: &Vec<Vec<bool>>, row: usize, col: usize) -> (count: u8)
    requires
        is_grid(rows_of(*rows)),
        row < rows_of(*rows).len(),
        col < rows_of(*rows)[0].len(),
    ensures
        count == live_neighbors(rows_of(*rows), row as int, col as int),
        count <= 8,
{
    let ghost cells = rows_of(*rows);
    let height = rows.len();
    assert(cells[0] == rows@[0]@);
    let width = rows[0].len();
    let up = before(row, height);
    let down = after(row, height);
    let left = before(col, width);
    let right = after(col, width);
    proof {
        lemma_wrap(row as int, height as int);
        lemma_wrap(col as int, width as int);
        assert(cells[up as int] == rows@[up as int]@);
        assert(cells[row as int] == rows@[row as int]@);
        assert(cells[down as int] == rows@[down as int]@);
    }
    let mut count: u8 = 0;
    count = tally(count, rows[row][left]);
    count = tally(count, rows[row][right]);
    count = tally(count, rows[up][left]);
    count = tally(count, rows[up][col]);
    count = tally(count, rows[up][right]);
    count = tally(count, rows[down][left]);
    count = tally(count, rows[down][col]);
    count = tally(count, rows[down][right]);
    count
}

/// Counts the live cells among the eight around `(row, col)`. A cell on an
/// edge has its missing neighbours on the opposite edge.
pub fn count_live_neighbors(grid: &Grid, row: usize, col: usize) -> (count: u8)
    requires
        grid.wf(),
        row < grid.height(),
        col < grid.width(),
    ensures
        count == live_neighbors(grid@, row as int, col as int),
        count <= 8,
{
    count_neighbors(grid.as_rows(), row, col)
}

/// Computes the next generation of a grid given by its rows.
fn next_rows(rows: &Vec<Vec<bool>>) -> (next: Vec<Vec<bool>>)
    requires
        is_grid(rows_of(*rows)),
    ensures
        rows_of(next) == next_generation(rows_of(*rows)),
{
    let ghost cells = rows_of(*rows);
    let height = rows.len();
    assert(cells[0] == rows@[0]@);
    let width = rows[0].len();
    let mut next: Vec<Vec<bool>> = Vec::new();
    let mut r: usize = 0;
    while r < height
        invariant
            cells == rows_of(*rows),
            is_grid(cells),
            height == cells.len(),
            width == cells[0].len(),
            r <= height,
            next@.len() == r,
            forall|i: int| 0 <= i < r ==> (#[trigger] next@[i])@ == next_generation(cells)[i],
        decreases height - r,
    {
        assert(cells[r as int] == rows@[r as int]@);
        let mut line: Vec<bool> = Vec::new();
        let mut c: usize = 0;
        while c < width
            invariant
                cells == rows_of(*rows),
                is_grid(cells),
                height == cells.len(),
                width == cells[0].len(),
                r < height,
                cells[r as int] == rows@[r as int]@,
                c <= width,
                line@.len() == c,
                forall|j: int|
                    0 <= j < c ==> #[trigger] line@[j] == rule(
                        cells[r as int][j],
                        live_neighbors(cells, r as int, j),
                    ),
            decreases width - c,
        {
            let neighbors = count_neighbors(rows, r, c);
            line.push(apply_rule(rows[r][c], neighbors));
            c = c + 1;
        }
        assert(line@ =~= next_generation(cells)[r as int]);
        next.push(line);
        r = r + 1;
    }
    assert(rows_of(next) =~= next_generation(cells));
    next
}

/// Advances a grid by one generation. The grid itself is left as it was; the
/// result is a new grid of the same dimensions.
pub fn step(grid: &Grid) -> (next: Grid)
    requires
        grid.wf(),
    ensures
        next.wf(),
        next@ == next_generation(grid@),
        next@.len() == grid@.len(),
        next@[0].len() == grid@[0].len(),
{
    proof {
        lemma_next_generation_keeps_dimensions(grid@);
    }
    Grid::from_grid_rows(next_rows(grid.as_rows()))
}

/// Advances a grid, given as its rows, by one generation.
///
/// The rows must form a grid: at least one row, at least one column, all rows
/// of one length.
pub fn step_forward(grid: Vec<Vec<bool>>) -> (next: Vec<Vec<bool>>)
    requires
        is_grid(rows_of(grid)),
    ensures
        rows_of(next) == next_generation(rows_of(grid)),
        is_grid(rows_of(next)),
        next@.len() == grid@.len(),
        forall|r: int| 0 <= r < next@.len() ==> (#[trigger] next@[r])@.len() == grid@[0]@.len(),
{
    proof {
        lemma_next_generation_keeps_dimensions(rows_of(grid));
    }
    let next = next_rows(&grid);
    assert forall|r: int| 0 <= r < next@.len() implies (#[trigger] next@[r])@.len()
        == grid@[0]@.len() by {
        assert(rows_of(next)[r] == next@[r]@);
        assert(rows_of(grid)[0] == grid@[0]@);
    }
    next
}

} // verus!
