//! Where things go on the screen: the square of pixels that each live cell
//! fills, and the lines that separate the cells.

use vstd::prelude::*;
use vstd::arithmetic::div_mod::{
    lemma_div_pos_is_pos,
    lemma_fundamental_div_mod,
    lemma_mod_bound,
    lemma_remainder_lower,
};
use vstd::arithmetic::mul::lemma_mul_inequality;
use crate::grid::Grid;
use crate::world::{fits, World};

verus! {

/// A rectangle of pixels: its upper left corner and its size.
#[derive(Clone, Copy, Debug, PartialEq, Eq, Structural)]
pub struct PixelRect {
    pub x: i32,
    pub y: i32,
    pub width: u32,
    pub height: u32,
}

/// A line from one pixel to another.
#[derive(Clone, Copy, Debug, PartialEq, Eq, Structural)]
pub struct PixelLine {
    pub x1: i32,
    pub y1: i32,
    pub x2: i32,
    pub y2: i32,
}

/// The square of pixels that the cell at `(row, col)` fills.
pub open spec fn cell_rect(world: World, row: int, col: int) -> PixelRect {
    PixelRect {
        x: (col * world.cell_size()) as i32,
        y: (row * world.cell_size()) as i32,
        width: world.cell_size(),
        height: world.cell_size(),
    }
}

/// The squares of the live cells among the first `columns` cells of a row,
/// from left to right.
pub open spec fn row_rects(world: World, cells: Seq<bool>, row: int, columns: int) -> Seq<
    PixelRect,
>
    decreases columns,
{
    if columns <= 0 {
        Seq::empty()
    } else {
        let before = row_rects(world, cells, row, columns - 1);
        if cells[columns - 1] {
            before.push(cell_rect(world, row, columns - 1))
        } else {
            before
        }
    }
}

/// The squares of the live cells in the first `rows` rows of a grid, row by
/// row from the top, each row from left to right.
pub open spec fn live_rects(world: World, cells: Seq<Seq<bool>>, rows: int) -> Seq<PixelRect>
    decreases rows,
{
    if rows <= 0 {
        Seq::empty()
    } else {
        live_rects(world, cells, rows - 1) + row_rects(
            world,
            cells[rows - 1],
            rows - 1,
            cells[rows - 1].len() as int,
        )
    }
}

/// The line at the left edge of column `col`, from the top of the world to
/// its bottom.
pub open spec fn column_line(world: World, col: int) -> PixelLine {
    PixelLine {
        x1: (col * world.cell_size()) as i32,
        y1: 0,
        x2: (col * world.cell_size()) as i32,
        y2: world.height() as i32,
    }
}

/// The line at the upper edge of row `row`, from the left of the world to
/// its right.
pub open spec fn row_line(world: World, row: int) -> PixelLine {
    PixelLine {
        x1: 0,
        y1: (row * world.cell_size()) as i32,
        x2: world.width() as i32,
        y2: (row * world.cell_size()) as i32,
    }
}

/// The lines between the cells: one for each column, left to right, then one
/// for each row, top to bottom.
pub open spec fn grid_lines(world: World) -> Seq<PixelLine> {
    Seq::new(
        (world.columns() + world.rows()) as nat,
        |i: int|
            if i < world.columns() {
                column_line(world, i)
            } else {
                row_line(world, i - world.columns())
            },
    )
}

/// The cells that fit into a length do not reach beyond it: cell `index` of
/// `length / cell_size` cells ends at or before `length`.
pub proof fn lemma_cell_within(length: int, cell_size: int, index: int)
    requires
        0 < cell_size <= length,
        0 <= index < length / cell_size,
    ensures
        0 <= index * cell_size,
        index * cell_size + cell_size <= length,
{
    lemma_remainder_lower(length, cell_size);
    lemma_mul_inequality(index + 1, length / cell_size, cell_size);
    assert((index + 1) * cell_size == index * cell_size + cell_size) by (nonlinear_arith);
    assert(0 <= index * cell_size) by (nonlinear_arith)
        requires
            0 <= index,
            0 < cell_size,
    ;
}

/// The square of the cell under a pixel holds that pixel.
pub proof fn lemma_cell_rect_holds_pixel(world: World, x: int, y: int)
    requires
        world.wf(),
        world.cell_of(x, y) is Some,
    ensures
        ({
            let (row, col) = world.cell_of(x, y)->0;
            let rect = cell_rect(world, row as int, col as int);
            &&& rect.x <= x < rect.x + rect.width
            &&& rect.y <= y < rect.y + rect.height
        }),
{
    let size = world.cell_size() as int;
    let (row, col) = world.cell_of(x, y)->0;
    lemma_div_pos_is_pos(x, size);
    lemma_div_pos_is_pos(y, size);
    lemma_fundamental_div_mod(x, size);
    lemma_fundamental_div_mod(y, size);
    lemma_mod_bound(x, size);
    lemma_mod_bound(y, size);
    assert(size * (x / size) == (x / size) * size) by (nonlinear_arith);
    assert(size * (y / size) == (y / size) * size) by (nonlinear_arith);
    assert(col == x / size);
    assert(row == y / size);
}

/// The pixel at which cell `index` begins, along a side of `length` pixels.
fn cell_start(length: u32, cell_size: u32, index: usize) -> (start: i32)
    requires
        0 < cell_size <= length <= i32::MAX,
        index < length / cell_size,
    ensures
        start == index * cell_size,
        start + cell_size <= length,
{
    proof {
        lemma_cell_within(length as int, cell_size as int, index as int);
    }
    let start: u32 = (index as u32) * cell_size;
    start as i32
}

/// The squares to fill for the live cells of a grid, row by row from the
/// top, each row from left to right.
pub fn live_cell_rects(world: &World, grid: &Grid) -> (rects: Vec<PixelRect>)
    requires
        world.wf(),
        fits(*world, grid@),
    ensures
        rects@ == live_rects(*world, grid@, grid@.len() as int),
{
    let size = world.cell_size();
    let rows = world.rows();
    let columns = world.columns();
    let mut rects: Vec<PixelRect> = Vec::new();
    let mut row: usize = 0;
    while row < rows
        invariant
            world.wf(),
            fits(*world, grid@),
            grid.wf(),
            size == world.cell_size(),
            rows == world.rows(),
            columns == world.columns(),
            row <= rows,
            rects@ == live_rects(*world, grid@, row as int),
        decreases rows - row,
    {
        let ghost done = rects@;
        let y = cell_start(world.height(), size, row);
        let mut col: usize = 0;
        while col < columns
            invariant
                world.wf(),
                fits(*world, grid@),
                grid.wf(),
                size == world.cell_size(),
                rows == world.rows(),
                columns == world.columns(),
                row < rows,
                col <= columns,
                y == row * size,
                rects@ == done + row_rects(*world, grid@[row as int], row as int, col as int),
            decreases columns - col,
        {
            if grid.get(row, col) {
                let x = cell_start(world.width(), size, col);
                rects.push(PixelRect { x, y, width: size, height: size });
            }
            col = col + 1;
            assert(rects@ =~= done + row_rects(
                *world,
                grid@[row as int],
                row as int,
                col as int,
            ));
        }
        row = row + 1;
    }
    rects
}

/// The lines to draw between the cells: one for each column, left to right,
/// then one for each row, top to bottom.
pub fn grid_line_segments(world: &World) -> (lines: Vec<PixelLine>)
    requires
        world.wf(),
    ensures
        lines@ == grid_lines(*world),
{
    let size = world.cell_size();
    let rows = world.rows();
    let columns = world.columns();
    let width: i32 = world.width() as i32;
    let height: i32 = world.height() as i32;
    let mut lines: Vec<PixelLine> = Vec::new();
    let mut col: usize = 0;
    while col < columns
        invariant
            world.wf(),
            size == world.cell_size(),
            columns == world.columns(),
            height == world.height(),
            col <= columns,
            lines@.len() == col,
            forall|i: int| 0 <= i < col ==> #[trigger] lines@[i] == column_line(*world, i),
        decreases columns - col,
    {
        let x = cell_start(world.width(), size, col);
        lines.push(PixelLine { x1: x, y1: 0, x2: x, y2: height });
        col = col + 1;
    }
    let mut row: usize = 0;
    while row < rows
        invariant
            world.wf(),
            size == world.cell_size(),
            columns == world.columns(),
            rows == world.rows(),
            width == world.width(),
            row <= rows,
            lines@.len() == columns + row,
            forall|i: int| 0 <= i < columns ==> #[trigger] lines@[i] == column_line(*world, i),
            forall|i: int|
                columns <= i < columns + row ==> #[trigger] lines@[i] == row_line(
                    *world,
                    i - columns,
                ),
        decreases rows - row,
    {
        let y = cell_start(world.height(), size, row);
        lines.push(PixelLine { x1: 0, y1: y, x2: width, y2: y });
        row = row + 1;
    }
    assert(lines@ =~= grid_lines(*world));
    lines
}

} // verus!
