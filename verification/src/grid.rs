//! The grid of cells: a rectangle of booleans with fixed dimensions.

use vstd::prelude::*;

verus! {

/// The rows held by a nested vector, top to bottom, each row left to right.
pub open spec fn rows_of(rows: Vec<Vec<bool>>) -> Seq<Seq<bool>> {
    Seq::new(rows@.len(), |r: int| rows@[r]@)
}

/// A sequence of rows is a grid when it has at least one row and one column
/// and all its rows are equally long.
pub open spec fn is_grid(cells: Seq<Seq<bool>>) -> bool {
    &&& cells.len() > 0
    &&& cells[0].len() > 0
    &&& forall|r: int| 0 <= r < cells.len() ==> (#[trigger] cells[r]).len() == cells[0].len()
}

/// The grid of the given dimensions in which every cell is dead.
pub open spec fn dead_cells(height: nat, width: nat) -> Seq<Seq<bool>> {
    Seq::new(height, |r: int| Seq::new(width, |c: int| false))
}

/// The cells with the one at `(row, col)` made alive or dead.
pub open spec fn with_cell(cells: Seq<Seq<bool>>, row: int, col: int, alive: bool) -> Seq<
    Seq<bool>,
> {
    cells.update(row, cells[row].update(col, alive))
}

/// A rectangle of cells, each alive (`true`) or dead (`false`), addressed by
/// row and column. Its dimensions are fixed when it is made.
#[derive(Debug)]
pub struct Grid {
    cells: Vec<Vec<bool>>,
}

impl View for Grid {
    type V = Seq<Seq<bool>>;

    closed spec fn view(&self) -> Seq<Seq<bool>> {
        rows_of(self.cells)
    }
}

/// A row of `width` dead cells.
fn dead_row(width: usize) -> (row: Vec<bool>)
    ensures
        row@ == Seq::new(width as nat, |c: int| false),
{
    let mut row: Vec<bool> = Vec::new();
    let mut c: usize = 0;
    while c < width
        invariant
            c <= width,
            row@ == Seq::new(c as nat, |c: int| false),
        decreases width - c,
    {
        row.push(false);
        c = c + 1;
    }
    row
}

impl Grid {
    /// The representation invariant: the cells form a non-empty rectangle.
    pub open spec fn wf(&self) -> bool {
        is_grid(self@)
    }

    /// Number of rows, as contracts see it.
    pub open spec fn spec_height(&self) -> usize {
        self@.len() as usize
    }

    /// Number of columns, as contracts see it.
    pub open spec fn spec_width(&self) -> usize {
        self@[0].len() as usize
    }

    /// Makes a grid of `width` columns and `height` rows with every cell
    /// dead. There is no grid without cells: a zero dimension gives `None`.
    pub fn new(width: usize, height: usize) -> (made: Option<Grid>)
        ensures
            made is None <==> (width == 0 || height == 0),
            made matches Some(grid) ==> grid.wf() && grid@ == dead_cells(
                height as nat,
                width as nat,
            ),
    {
        if width == 0 || height == 0 {
            return None;
        }
        let mut cells: Vec<Vec<bool>> = Vec::new();
        let mut r: usize = 0;
        while r < height
            invariant
                r <= height,
                cells@.len() == r,
                forall|i: int|
                    0 <= i < r ==> (#[trigger] cells@[i])@ == Seq::new(
                        width as nat,
                        |c: int| false,
                    ),
            decreases height - r,
        {
            let row = dead_row(width);
            cells.push(row);
            r = r + 1;
        }
        assert(rows_of(cells) =~= dead_cells(height as nat, width as nat));
        Some(Grid { cells })
    }

    /// Takes the rows as a grid if they form one: at least one row, at least
    /// one column, every row as long as the first. Other rows give `None`.
    pub fn from_rows(rows: Vec<Vec<bool>>) -> (made: Option<Grid>)
        ensures
            made is Some <==> is_grid(rows_of(rows)),
            made matches Some(grid) ==> grid.wf() && grid@ == rows_of(rows),
    {
        let ghost cells = rows_of(rows);
        let height = rows.len();
        if height == 0 {
            return None;
        }
        assert(cells[0] == rows@[0]@);
        let width = rows[0].len();
        if width == 0 {
            return None;
        }
        let mut r: usize = 1;
        while r < height
            invariant
                cells == rows_of(rows),
                height == cells.len(),
                width == cells[0].len(),
                1 <= r <= height,
                forall|i: int| 0 <= i < r ==> (#[trigger] cells[i]).len() == width,
            decreases height - r,
        {
            assert(cells[r as int] == rows@[r as int]@);
            if rows[r].len() != width {
                return None;
            }
            r = r + 1;
        }
        Some(Grid { cells: rows })
    }

    /// Gives up the grid for its rows.
    pub fn into_rows(self) -> (rows: Vec<Vec<bool>>)
        ensures
            rows_of(rows) == self@,
    {
        self.cells
    }

    /// Wraps rows that are known to form a grid.
    pub(crate) fn from_grid_rows(rows: Vec<Vec<bool>>) -> (grid: Grid)
        requires
            is_grid(rows_of(rows)),
        ensures
            grid.wf(),
            grid@ == rows_of(rows),
    {
        Grid { cells: rows }
    }

    /// The rows of the grid, for reading.
    pub fn as_rows(&self) -> (rows: &Vec<Vec<bool>>)
        ensures
            rows_of(*rows) == self@,
    {
        &self.cells
    }

    /// Number of rows.
    #[verifier::when_used_as_spec(spec_height)]
    pub fn height(&self) -> (h: usize)
        ensures
            h == self@.len(),
            h == self.spec_height(),
    {
        self.cells.len()
    }

    /// Number of columns.
    #[verifier::when_used_as_spec(spec_width)]
    pub fn width(&self) -> (w: usize)
        requires
            self.wf(),
        ensures
            w == self@[0].len(),
            w == self.spec_width(),
    {
        assert(self@[0] == self.cells@[0]@);
        self.cells[0].len()
    }

    /// Whether the cell at `(row, col)` is alive.
    pub fn get(&self, row: usize, col: usize) -> (alive: bool)
        requires
            self.wf(),
            row < self.height(),
            col < self.width(),
        ensures
            alive == self@[row as int][col as int],
    {
        assert(self@[row as int] == self.cells@[row as int]@);
        self.cells[row][col]
    }

    /// Makes the cell at `(row, col)` alive or dead. No other cell changes.
    pub fn set(&mut self, row: usize, col: usize, alive: bool)
        requires
            old(self).wf(),
            row < old(self).height(),
            col < old(self).width(),
        ensures
            final(self).wf(),
            final(self)@ == with_cell(old(self)@, row as int, col as int, alive),
    {
        assert(self@[row as int] == self.cells@[row as int]@);
        self.cells[row][col] = alive;
        assert(self@ =~= with_cell(old(self)@, row as int, col as int, alive));
    }

    /// Makes every cell dead. The dimensions stay.
    pub fn clear(&mut self)
        requires
            old(self).wf(),
        ensures
            final(self).wf(),
            final(self)@ == dead_cells(old(self)@.len(), old(self)@[0].len()),
    {
        let height = self.height();
        let width = self.width();
        let mut r: usize = 0;
        while r < height
            invariant
                r <= height,
                height == old(self)@.len(),
                width == old(self)@[0].len(),
                self.cells@.len() == height,
                forall|i: int|
                    0 <= i < r ==> (#[trigger] self.cells@[i])@ == Seq::new(
                        width as nat,
                        |c: int| false,
                    ),
            decreases height - r,
        {
            self.cells[r] = dead_row(width);
            r = r + 1;
        }
        assert(self@ =~= dead_cells(height as nat, width as nat));
    }
}

impl Clone for Grid {
    /// An independent copy: the same cells, sharing nothing with this grid.
    fn clone(&self) -> (copy: Grid)
        ensures
            copy@ == self@,
    {
        let mut cells: Vec<Vec<bool>> = Vec::new();
        let mut r: usize = 0;
        while r < self.cells.len()
            invariant
                r <= self.cells@.len(),
                cells@.len() == r,
                forall|i: int| 0 <= i < r ==> (#[trigger] cells@[i])@ == self.cells@[i]@,
            decreases self.cells@.len() - r,
        {
            let mut row: Vec<bool> = Vec::new();
            let mut c: usize = 0;
            while c < self.cells[r].len()
                invariant
                    r < self.cells@.len(),
                    c <= self.cells@[r as int]@.len(),
                    row@.len() == c,
                    forall|j: int| 0 <= j < c ==> #[trigger] row@[j] == self.cells@[r as int]@[j],
                decreases self.cells@[r as int]@.len() - c,
            {
                row.push(self.cells[r][c]);
                c = c + 1;
            }
            assert(row@ =~= self.cells@[r as int]@);
            cells.push(row);
            r = r + 1;
        }
        assert(rows_of(cells) =~= rows_of(self.cells));
        Grid { cells }
    }
}

} // verus!
