//! Well-known patterns and what the rule does to them, on every torus large
//! enough to hold them and at every position, across the edges too.

use vstd::prelude::*;
use crate::engine::{alive_at, census, lemma_wrap, live_neighbors, next_generation, rule, wrap};
use crate::grid::is_grid;

verus! {

/// The block: a square of two by two live cells whose upper left corner is
/// `(row, col)`, all other cells dead.
pub open spec fn block(height: nat, width: nat, row: int, col: int) -> Seq<Seq<bool>> {
    Seq::new(
        height,
        |r: int|
            Seq::new(
                width,
                |c: int|
                    (r == row || r == wrap(row + 1, height as int)) && (c == col || c == wrap(
                        col + 1,
                        width as int,
                    )),
            ),
    )
}

/// The blinker lying down: three live cells in row `row`, centred on column
/// `col`, all other cells dead.
pub open spec fn horizontal_blinker(height: nat, width: nat, row: int, col: int) -> Seq<Seq<bool>> {
    Seq::new(
        height,
        |r: int|
            Seq::new(
                width,
                |c: int|
                    r == row && (c == wrap(col - 1, width as int) || c == col || c == wrap(
                        col + 1,
                        width as int,
                    )),
            ),
    )
}

/// The blinker standing up: three live cells in column `col`, centred on row
/// `row`, all other cells dead.
pub open spec fn vertical_blinker(height: nat, width: nat, row: int, col: int) -> Seq<Seq<bool>> {
    Seq::new(
        height,
        |r: int|
            Seq::new(
                width,
                |c: int|
                    c == col && (r == wrap(row - 1, height as int) || r == row || r == wrap(
                        row + 1,
                        height as int,
                    )),
            ),
    )
}

/// A block is a still life: on a torus of at least four rows and four
/// columns the next generation of a block is the same block.
pub proof fn lemma_block_is_still(height: nat, width: nat, row: int, col: int)
    requires
        4 <= height,
        4 <= width,
        0 <= row < height,
        0 <= col < width,
    ensures
        next_generation(block(height, width, row, col)) == block(height, width, row, col),
{
    let b = block(height, width, row, col);
    let h = height as int;
    let w = width as int;
    lemma_wrap(row + 1, h);
    lemma_wrap(col + 1, w);
    assert forall|r: int, c: int| 0 <= r < h && 0 <= c < w implies rule(
        b[r][c],
        #[trigger] live_neighbors(b, r, c),
    ) == b[r][c] by {
        lemma_wrap(r - 1, h);
        lemma_wrap(r, h);
        lemma_wrap(r + 1, h);
        lemma_wrap(c - 1, w);
        lemma_wrap(c, w);
        lemma_wrap(c + 1, w);
    }
    assert(next_generation(b) =~~= b);
}

/// A blinker oscillates with period two: on a torus of at least five rows
/// and five columns the lying blinker becomes the standing one around the
/// same centre, and the standing one becomes the lying one.
pub proof fn lemma_blinker_oscillates(height: nat, width: nat, row: int, col: int)
    requires
        5 <= height,
        5 <= width,
        0 <= row < height,
        0 <= col < width,
    ensures
        next_generation(horizontal_blinker(height, width, row, col)) == vertical_blinker(
            height,
            width,
            row,
            col,
        ),
        next_generation(vertical_blinker(height, width, row, col)) == horizontal_blinker(
            height,
            width,
            row,
            col,
        ),
        next_generation(next_generation(horizontal_blinker(height, width, row, col)))
            == horizontal_blinker(height, width, row, col),
{
    let lying = horizontal_blinker(height, width, row, col);
    let standing = vertical_blinker(height, width, row, col);
    let h = height as int;
    let w = width as int;
    lemma_wrap(row - 1, h);
    lemma_wrap(row + 1, h);
    lemma_wrap(col - 1, w);
    lemma_wrap(col + 1, w);
    assert forall|r: int, c: int| 0 <= r < h && 0 <= c < w implies rule(
        lying[r][c],
        #[trigger] live_neighbors(lying, r, c),
    ) == standing[r][c] by {
        lemma_wrap(r - 1, h);
        lemma_wrap(r, h);
        lemma_wrap(r + 1, h);
        lemma_wrap(c - 1, w);
        lemma_wrap(c, w);
        lemma_wrap(c + 1, w);
    }
    assert(next_generation(lying) =~~= standing);
    assert forall|r: int, c: int| 0 <= r < h && 0 <= c < w implies rule(
        standing[r][c],
        #[trigger] live_neighbors(standing, r, c),
    ) == lying[r][c] by {
        lemma_wrap(r - 1, h);
        lemma_wrap(r, h);
        lemma_wrap(r + 1, h);
        lemma_wrap(c - 1, w);
        lemma_wrap(c, w);
        lemma_wrap(c + 1, w);
    }
    assert(next_generation(standing) =~~= lying);
}

/// The corner cell at row 0, column 0 has the cell in the last row and last
/// column as its upper left neighbour, so a live cell there is counted.
pub proof fn lemma_corner_counts_opposite_corner(cells: Seq<Seq<bool>>)
    requires
        is_grid(cells),
    ensures
        alive_at(cells, -1, -1) == cells[cells.len() - 1][cells[0].len() - 1],
        live_neighbors(cells, 0, 0) >= census(cells[cells.len() - 1][cells[0].len() - 1]),
{
    lemma_wrap(-1, cells.len() as int);
    lemma_wrap(-1, cells[0].len() as int);
}

} // verus!
