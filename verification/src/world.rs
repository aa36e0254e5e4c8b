//! The world in pixels: how large it is, how large a cell is, and which cell
//! lies under a pointer.

use vstd::prelude::*;
use vstd::arithmetic::div_mod::{
    lemma_div_pos_is_pos,
    lemma_fundamental_div_mod,
    lemma_mod_bound,
    lemma_multiply_divide_lt,
};
use crate::grid::is_grid;

verus! {

/// Width and height, in pixels, of the world that the program shows.
pub const WINDOW_SIZE: (u32, u32) = (1200, 800);

/// Side, in pixels, of a cell in the world that the program shows.
pub const GRID_SIZE: u32 = 20;

/// A world of `width` by `height` pixels cut into square cells of
/// `cell_size` pixels. It has `width / cell_size` columns and
/// `height / cell_size` rows.
#[derive(Clone, Copy, Debug)]
pub struct World {
    width: u32,
    height: u32,
    cell_size: u32,
}

impl World {
    /// Width in pixels, as contracts see it.
    pub closed spec fn spec_width(&self) -> u32 {
        self.width
    }

    /// Height in pixels, as contracts see it.
    pub closed spec fn spec_height(&self) -> u32 {
        self.height
    }

    /// Side of a cell in pixels, as contracts see it.
    pub closed spec fn spec_cell_size(&self) -> u32 {
        self.cell_size
    }

    /// Whether the three numbers describe a world: cells have a size, at
    /// least one cell fits each way, and every pixel has `i32` coordinates.
    pub open spec fn valid(width: u32, height: u32, cell_size: u32) -> bool {
        &&& 0 < cell_size
        &&& cell_size <= width <= i32::MAX
        &&& cell_size <= height <= i32::MAX
    }

    /// The representation invariant: the dimensions describe a world.
    pub open spec fn wf(&self) -> bool {
        Self::valid(self.width(), self.height(), self.cell_size())
    }

    /// Number of columns, as contracts see it.
    pub open spec fn spec_columns(&self) -> usize {
        (self.width() / self.cell_size()) as usize
    }

    /// Number of rows, as contracts see it.
    pub open spec fn spec_rows(&self) -> usize {
        (self.height() / self.cell_size()) as usize
    }

    /// The cell, as row and column, under the pixel `(x, y)`: each
    /// coordinate divided by the cell size. Pixels outside the world have no
    /// cell, nor have those of a strip at the right or lower edge that is too
    /// narrow for a whole cell.
    pub open spec fn cell_of(&self, x: int, y: int) -> Option<(usize, usize)> {
        if 0 <= x < self.width() && 0 <= y < self.height() && x / (self.cell_size() as int)
            < self.columns() && y / (self.cell_size() as int) < self.rows() {
            Some(
                (
                    (y / (self.cell_size() as int)) as usize,
                    (x / (self.cell_size() as int)) as usize,
                ),
            )
        } else {
            None
        }
    }

    /// Makes a world, or `None` where the numbers describe none: a cell size
    /// of zero, a width or height smaller than a cell, or one beyond
    /// `i32::MAX`.
    pub fn new(width: u32, height: u32, cell_size: u32) -> (made: Option<World>)
        ensures
            made is Some <==> Self::valid(width, height, cell_size),
            made matches Some(world) ==> {
                &&& world.wf()
                &&& world.width() == width
                &&& world.height() == height
                &&& world.cell_size() == cell_size
            },
    {
        if cell_size == 0 || width < cell_size || height < cell_size || width > 0x7fff_ffff
            || height > 0x7fff_ffff {
            None
        } else {
            Some(World { width, height, cell_size })
        }
    }

    /// Width in pixels.
    #[verifier::when_used_as_spec(spec_width)]
    pub fn width(&self) -> (width: u32)
        ensures
            width == self.spec_width(),
    {
        self.width
    }

    /// Height in pixels.
    #[verifier::when_used_as_spec(spec_height)]
    pub fn height(&self) -> (height: u32)
        ensures
            height == self.spec_height(),
    {
        self.height
    }

    /// Side of a cell in pixels.
    #[verifier::when_used_as_spec(spec_cell_size)]
    pub fn cell_size(&self) -> (cell_size: u32)
        ensures
            cell_size == self.spec_cell_size(),
    {
        self.cell_size
    }

    /// Number of columns: the width divided by the cell size.
    #[verifier::when_used_as_spec(spec_columns)]
    pub fn columns(&self) -> (columns: usize)
        requires
            self.wf(),
        ensures
            columns == self.spec_columns(),
            columns == self.width() / self.cell_size(),
            columns >= 1,
    {
        proof {
            lemma_at_least_one_cell(self.width as int, self.cell_size as int);
        }
        (self.width / self.cell_size) as usize
    }

    /// Number of rows: the height divided by the cell size.
    #[verifier::when_used_as_spec(spec_rows)]
    pub fn rows(&self) -> (rows: usize)
        requires
            self.wf(),
        ensures
            rows == self.spec_rows(),
            rows == self.height() / self.cell_size(),
            rows >= 1,
    {
        proof {
            lemma_at_least_one_cell(self.height as int, self.cell_size as int);
        }
        (self.height / self.cell_size) as usize
    }

    /// The cell, as row and column, under the pixel `(x, y)`, if there is one.
    pub fn cell_at(&self, x: i32, y: i32) -> (cell: Option<(usize, usize)>)
        requires
            self.wf(),
        ensures
            cell == self.cell_of(x as int, y as int),
            cell matches Some((row, col)) ==> row < self.rows() && col < self.columns(),
    {
        if x < 0 || y < 0 {
            return None;
        }
        let px: u32 = x as u32;
        let py: u32 = y as u32;
        if px >= self.width || py >= self.height {
            return None;
        }
        let col: usize = (px / self.cell_size) as usize;
        let row: usize = (py / self.cell_size) as usize;
        if col < self.columns() && row < self.rows() {
            Some((row, col))
        } else {
            None
        }
    }
}

/// Whether the cells are a grid of the dimensions of the world.
pub open spec fn fits(world: World, cells: Seq<Seq<bool>>) -> bool {
    &&& is_grid(cells)
    &&& cells.len() == world.rows()
    &&& cells[0].len() == world.columns()
}

/// A length of at least one cell holds at least one cell, and the cells that
/// it holds do not reach beyond it.
proof fn lemma_at_least_one_cell(length: int, cell_size: int)
    requires
        0 < cell_size <= length,
    ensures
        1 <= length / cell_size <= length,
        (length / cell_size) * cell_size <= length,
        length % cell_size == 0 ==> (length / cell_size) * cell_size == length,
{
    lemma_div_pos_is_pos(length, cell_size);
    lemma_fundamental_div_mod(length, cell_size);
    lemma_mod_bound(length, cell_size);
    assert((length / cell_size) * cell_size == cell_size * (length / cell_size))
        by (nonlinear_arith);
    if length / cell_size < 1 {
        assert(cell_size * 0 == 0);
    }
    assert(length / cell_size <= (length / cell_size) * cell_size) by (nonlinear_arith)
        requires
            0 < cell_size,
            0 <= length / cell_size,
    ;
}

/// The cells cover the world from its upper left corner, as far as whole
/// cells go. Where the cell size divides width and height, that is all of it.
pub proof fn lemma_cells_cover(world: World)
    requires
        world.wf(),
    ensures
        world.columns() * world.cell_size() <= world.width(),
        world.rows() * world.cell_size() <= world.height(),
        world.width() % world.cell_size() == 0 ==> world.columns() * world.cell_size()
            == world.width(),
        world.height() % world.cell_size() == 0 ==> world.rows() * world.cell_size()
            == world.height(),
{
    lemma_at_least_one_cell(world.width() as int, world.cell_size() as int);
    lemma_at_least_one_cell(world.height() as int, world.cell_size() as int);
}

/// Every pixel of the area that the cells cover has a cell under it: the
/// one whose row and column are the pixel's coordinates divided by the cell
/// size.
pub proof fn lemma_pixel_in_cells_has_cell(world: World, x: int, y: int)
    requires
        world.wf(),
        0 <= x < world.columns() * world.cell_size(),
        0 <= y < world.rows() * world.cell_size(),
    ensures
        world.cell_of(x, y) == Some(
            ((y / (world.cell_size() as int)) as usize, (x / (world.cell_size() as int)) as usize),
        ),
        0 <= x / (world.cell_size() as int) < world.columns(),
        0 <= y / (world.cell_size() as int) < world.rows(),
{
    let size = world.cell_size() as int;
    lemma_cells_cover(world);
    lemma_at_least_one_cell(world.width() as int, size);
    lemma_at_least_one_cell(world.height() as int, size);
    assert(world.columns() * size == size * world.columns()) by (nonlinear_arith);
    assert(world.rows() * size == size * world.rows()) by (nonlinear_arith);
    lemma_multiply_divide_lt(x, size, world.columns() as int);
    lemma_multiply_divide_lt(y, size, world.rows() as int);
    lemma_div_pos_is_pos(x, size);
    lemma_div_pos_is_pos(y, size);
}

} // verus!
