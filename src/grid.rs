//! A row-major grid of cells: structural changes, layout and rendering.

use vstd::prelude::*;

use crate::border::{Border, bot_border, mid_border, row_line, top_border};
use crate::cell::{Cell, CellView};
use crate::text::{lemma_terminated_push, terminated, views};
use crate::error::{GridError, index_error};

verus! {

/// The views of some cells.
pub open spec fn cell_views(v: Seq<Cell>) -> Seq<CellView> {
    v.map_values(|c: Cell| c@)
}

/// The empty cell with nothing set.
pub open spec fn blank() -> CellView {
    CellView::plain(Seq::empty())
}

/// The cell at `(r, c)` of row-major `cells` with `cols` columns.
pub open spec fn cell_at(cells: Seq<CellView>, cols: nat, r: int, c: int) -> CellView {
    cells[r * cols + c]
}

/// A grid as its dimensions and its cells in row-major order.
pub struct GridView {
    pub rows: nat,
    pub cols: nat,
    pub cells: Seq<CellView>,
}

impl GridView {
    /// There is one cell for each row and column.
    pub open spec fn wf(self) -> bool {
        self.cells.len() == self.rows * self.cols
    }

    pub open spec fn in_bounds(self, r: int, c: int) -> bool {
        0 <= r < self.rows && 0 <= c < self.cols
    }

    pub open spec fn cell(self, r: int, c: int) -> CellView {
        cell_at(self.cells, self.cols, r, c)
    }

    /// The tallest height among the first `n` cells of row `r`.
    pub open spec fn row_height_upto(self, r: int, n: nat) -> nat
        decreases n,
    {
        if n == 0 {
            0
        } else {
            let rest = self.row_height_upto(r, (n - 1) as nat);
            let h = self.cell(r, n - 1).height();
            if h > rest {
                h
            } else {
                rest
            }
        }
    }

    /// The widest width among the first `n` cells of column `c`.
    pub open spec fn col_width_upto(self, c: int, n: nat) -> nat
        decreases n,
    {
        if n == 0 {
            0
        } else {
            let rest = self.col_width_upto(c, (n - 1) as nat);
            let w = self.cell(n - 1, c).width();
            if w > rest {
                w
            } else {
                rest
            }
        }
    }

    /// The height of row `r`: the largest height its cells ask for.
    pub open spec fn row_height(self, r: int) -> nat {
        self.row_height_upto(r, self.cols)
    }

    /// The width of column `c`: the largest width its cells ask for.
    pub open spec fn col_width(self, c: int) -> nat {
        self.col_width_upto(c, self.rows)
    }

    pub open spec fn widths(self) -> Seq<usize> {
        Seq::new(self.cols, |c: int| self.col_width(c) as usize)
    }

    /// Line `i` of row `r`: line `i` of each of its cells, rendered to the
    /// row's height and its column's width, framed by vertical glyphs.
    pub open spec fn row_text_line(self, r: int, i: int) -> Seq<char> {
        let h = self.row_height(r);
        row_line(Seq::new(self.cols, |c: int| self.cell(r, c).rendered(h, self.col_width(c))[i]))
    }

    /// The lines of row `r`.
    pub open spec fn row_block(self, r: int) -> Seq<Seq<char>> {
        Seq::new(self.row_height(r), |i: int| self.row_text_line(r, i))
    }

    /// The lines of the first `n` rows, with a middle border between two rows.
    pub open spec fn body(self, n: nat) -> Seq<Seq<char>>
        decreases n,
    {
        if n == 0 {
            Seq::empty()
        } else if n == 1 {
            self.row_block(0)
        } else {
            self.body((n - 1) as nat) + seq![mid_border(self.widths())] + self.row_block(n - 1)
        }
    }

    /// The lines of the rendered grid: top border, rows, bottom border.
    pub open spec fn lines(self) -> Seq<Seq<char>> {
        seq![top_border(self.widths())] + self.body(self.rows) + seq![bot_border(self.widths())]
    }

    /// The rendered grid: its lines, each ended by a newline.
    pub open spec fn text(self) -> Seq<char> {
        terminated(self.lines())
    }

    /// `self` is `before` resized to `rows` by `cols`: cells inside both bounds
    /// keep their place, the others are empty.
    pub open spec fn is_resize_of(self, before: GridView, rows: nat, cols: nat) -> bool {
        &&& self.wf()
        &&& self.rows == rows
        &&& self.cols == cols
        &&& forall|r: int, c: int|
            #![trigger self.cell(r, c)]
            0 <= r < rows && 0 <= c < cols ==> self.cell(r, c) == if before.in_bounds(r, c) {
                before.cell(r, c)
            } else {
                blank()
            }
    }

    /// `self` is `before` with `row`, cut or padded to the column count,
    /// inserted before row `at`; the rows from `at` on move down by one.
    pub open spec fn is_row_insert_of(self, before: GridView, at: int, row: Seq<CellView>) -> bool {
        &&& self.wf()
        &&& self.rows == before.rows + 1
        &&& self.cols == before.cols
        &&& forall|r: int, c: int|
            #![trigger self.cell(r, c)]
            self.in_bounds(r, c) ==> self.cell(r, c) == if r < at {
                before.cell(r, c)
            } else if r == at {
                fitted(row, before.cols)[c]
            } else {
                before.cell(r - 1, c)
            }
    }

    /// The grid with the cell at `(r, c)` replaced by `v`.
    pub open spec fn with_cell(self, r: int, c: int, v: CellView) -> GridView {
        GridView { cells: self.cells.update(r * self.cols + c, v), ..self }
    }
}

proof fn lemma_index_bound(r: int, c: int, rows: int, cols: int)
    requires
        0 <= r < rows,
        0 <= c < cols,
    ensures
        0 <= r * cols + c < rows * cols,
        r * cols + cols <= rows * cols,
{
    lemma_row_bound(r, rows, cols);
}

proof fn lemma_row_bound(r: int, rows: int, cols: int)
    requires
        0 <= r < rows,
        0 <= cols,
    ensures
        0 <= r * cols,
        r * cols + cols <= rows * cols,
{
    assert(0 <= r * cols) by (nonlinear_arith)
        requires
            0 <= r,
            0 <= cols,
    ;
    assert((r + 1) * cols == r * cols + cols) by (nonlinear_arith);
    assert((r + 1) * cols <= rows * cols) by (nonlinear_arith)
        requires
            r + 1 <= rows,
            0 <= cols,
    ;
}

proof fn lemma_index_distinct(r1: int, c1: int, r2: int, c2: int, cols: int)
    requires
        0 <= r1,
        0 <= r2,
        0 <= c1 < cols,
        0 <= c2 < cols,
        r1 != r2 || c1 != c2,
    ensures
        r1 * cols + c1 != r2 * cols + c2,
{
    if r1 < r2 {
        lemma_index_bound(r1, c1, r2, cols);
    } else if r2 < r1 {
        lemma_index_bound(r2, c2, r1, cols);
    }
}

proof fn lemma_views_update()
    ensures
        forall|s: Seq<Cell>, i: int, x: Cell|
            0 <= i < s.len() ==> #[trigger] cell_views(s.update(i, x)) == cell_views(s).update(
                i,
                x@,
            ),
{
    assert forall|s: Seq<Cell>, i: int, x: Cell| 0 <= i < s.len() implies #[trigger] cell_views(
        s.update(i, x),
    ) == cell_views(s).update(i, x@) by {
        assert(cell_views(s.update(i, x)) =~= cell_views(s).update(i, x@));
    }
}

proof fn lemma_next_row(r: int, cols: int)
    ensures
        (r + 1) * cols == r * cols + cols,
{
    assert((r + 1) * cols == r * cols + cols) by (nonlinear_arith);
}

proof fn lemma_views_push()
    ensures
        forall|s: Seq<Cell>, x: Cell| #[trigger]
            cell_views(s.push(x)) == cell_views(s).push(x@),
{
    assert forall|s: Seq<Cell>, x: Cell| #[trigger]
        cell_views(s.push(x)) == cell_views(s).push(x@) by {
        assert(cell_views(s.push(x)) =~= cell_views(s).push(x@));
    }
}

/// The cells of `given` made exactly `n` long: cut, or padded with empty cells.
pub open spec fn fitted(given: Seq<CellView>, n: nat) -> Seq<CellView> {
    Seq::new(n, |i: int| if i < given.len() { given[i] } else { blank() })
}

/// The length of the longest of `rows`, 0 for none.
pub open spec fn widest(rows: Seq<Vec<Cell>>) -> nat
    decreases rows.len(),
{
    if rows.len() == 0 {
        0
    } else {
        let rest = widest(rows.drop_last());
        if rows.last()@.len() > rest {
            rows.last()@.len()
        } else {
            rest
        }
    }
}

/// The cell at `(r, c)` once `column` has been inserted before column `at` of `g`.
pub open spec fn col_inserted(g: GridView, column: Seq<CellView>, at: int, r: int, c: int) -> CellView {
    if c < at {
        g.cell(r, c)
    } else if c == at {
        column[r]
    } else {
        g.cell(r, c - 1)
    }
}

/// Moves the cell at `i` out of `cells`, leaving an empty cell in its place.
fn take_cell(cells: &mut Vec<Cell>, i: usize) -> (r: Cell)
    requires
        i < old(cells)@.len(),
    ensures
        r == old(cells)@[i as int],
        final(cells)@.len() == old(cells)@.len(),
        forall|j: int| 0 <= j < old(cells)@.len() && j != i ==> #[trigger] final(cells)@[j] == old(
            cells,
        )@[j],
{
    let mut r = Cell::default();
    cells.set_and_swap(i, &mut r);
    r
}

/// `cells` cut to `n`, or padded to `n` with empty cells.
fn fit_cells(cells: Vec<Cell>, n: usize) -> (r: Vec<Cell>)
    ensures
        cell_views(r@) == fitted(cell_views(cells@), n as nat),
{
    let ghost given = cell_views(cells@);
    let mut cells = cells;
    cells.truncate(n);
    assert(cell_views(cells@) =~= fitted(given, cells@.len() as nat));
    while cells.len() < n
        invariant
            cells@.len() <= n,
            cells@.len() < n ==> cells@.len() >= given.len(),
            cell_views(cells@) == fitted(given, cells@.len() as nat),
        decreases n - cells.len(),
    {
        cells.push(Cell::default());
        proof {
            lemma_views_push();
            assert(cell_views(cells@) =~= fitted(given, cells@.len() as nat));
        }
    }
    cells
}

/// A row-major grid of cells with its row and column counts.
#[derive(Debug, Clone)]
pub struct Grid {
    cells: Vec<Cell>,
    rows: usize,
    cols: usize,
}

impl Default for Grid {
    /// The grid of no rows and no columns.
    fn default() -> (r: Grid)
        ensures
            r@.wf(),
            r@.rows == 0,
            r@.cols == 0,
    {
        Grid::new(0, 0)
    }
}

impl View for Grid {
    type V = GridView;

    closed spec fn view(&self) -> GridView {
        GridView { rows: self.rows as nat, cols: self.cols as nat, cells: cell_views(self.cells@) }
    }
}

impl Grid {
    /// The position of `(row, col)` in the row-major cells.
    fn flat_index(&self, row: usize, col: usize) -> (r: usize)
        requires
            self@.wf(),
            self@.in_bounds(row as int, col as int),
        ensures
            r == row * self@.cols + col,
            r < self.cells@.len(),
    {
        let n = self.cells.len();
        proof {
            lemma_index_bound(row as int, col as int, self.rows as int, self.cols as int);
        }
        row * self.cols + col
    }

    /// A grid of `rows` by `cols` empty cells.
    pub fn new(rows: usize, cols: usize) -> (r: Grid)
        requires
            rows * cols <= usize::MAX,
        ensures
            r@.wf(),
            r@.rows == rows,
            r@.cols == cols,
            forall|i: int| 0 <= i < r@.cells.len() ==> #[trigger] r@.cells[i] == blank(),
    {
        let n = rows * cols;
        let mut cells: Vec<Cell> = Vec::new();
        let mut i: usize = 0;
        while i < n
            invariant
                i <= n,
                cells@.len() == i,
                forall|k: int| 0 <= k < i ==> #[trigger] cells@[k]@ == blank(),
            decreases n - i,
        {
            cells.push(Cell::default());
            i = i + 1;
        }
        Grid { cells, rows, cols }
    }

    /// A grid with one row for each of `data`, as wide as its longest row;
    /// shorter rows are padded with empty cells.
    pub fn from(data: Vec<Vec<Cell>>) -> (r: Grid)
        requires
            data@.len() * widest(data@) <= usize::MAX,
        ensures
            r@.wf(),
            r@.rows == data@.len(),
            r@.cols == widest(data@),
            forall|i: int, c: int|
                #![trigger r@.cell(i, c)]
                r@.in_bounds(i, c) ==> r@.cell(i, c) == fitted(cell_views(data@[i]@), r@.cols)[c],
    {
        let ghost rows0 = data@;
        let height = data.len();
        let mut width: usize = 0;
        let mut i: usize = 0;
        while i < height
            invariant
                height == rows0.len(),
                rows0 == data@,
                i <= height,
                width == widest(rows0.take(i as int)),
            decreases height - i,
        {
            assert(rows0.take(i + 1).drop_last() =~= rows0.take(i as int));
            if data[i].len() > width {
                width = data[i].len();
            }
            i = i + 1;
        }
        assert(rows0.take(i as int) =~= rows0);
        let mut cells: Vec<Cell> = Vec::new();
        let mut i: usize = 0;
        for row in it: data.into_iter()
            invariant
                it.seq() == rows0,
                i == it.index(),
                i <= height,
                height == rows0.len(),
                width == widest(rows0),
                height * width <= usize::MAX,
                cells@.len() == i * width,
                forall|r2: int, c2: int|
                    #![trigger cell_at(cell_views(cells@), width as nat, r2, c2)]
                    0 <= r2 < i && 0 <= c2 < width ==> cell_at(
                        cell_views(cells@),
                        width as nat,
                        r2,
                        c2,
                    ) == fitted(cell_views(rows0[r2]@), width as nat)[c2],
        {
            assert(i < it.seq().len() && row == it.seq()[i as int]);
            let ghost before = cells@;
            let mut line = fit_cells(row, width);
            let ghost fit = cell_views(line@);
            cells.append(&mut line);
            proof {
                lemma_row_bound(i as int, height as int, width as int);
                lemma_next_row(i as int, width as int);
                assert(cell_views(cells@) =~= cell_views(before) + fit);
                assert forall|r2: int, c2: int|
                    0 <= r2 < i + 1 && 0 <= c2 < width implies #[trigger] cell_at(
                    cell_views(cells@),
                    width as nat,
                    r2,
                    c2,
                ) == fitted(cell_views(rows0[r2]@), width as nat)[c2] by {
                    if r2 < i {
                        lemma_index_bound(r2, c2, i as int, width as int);
                        assert(cell_at(cell_views(before), width as nat, r2, c2) == fitted(
                            cell_views(rows0[r2]@),
                            width as nat,
                        )[c2]);
                    }
                }
            }
            i = i + 1;
        }
        Grid { cells, rows: height, cols: width }
    }

    pub fn rows(&self) -> (r: usize)
        ensures
            r == self@.rows,
    {
        self.rows
    }

    pub fn cols(&self) -> (r: usize)
        ensures
            r == self@.cols,
    {
        self.cols
    }

    /// The error for `(row, col)`, or `Ok` when it lies inside the grid.
    pub fn check_index(&self, row: usize, col: usize) -> (r: Result<(), GridError>)
        ensures
            r == match index_error(self@.rows, self@.cols, row as nat, col as nat) {
                Some(e) => Err(e),
                None => Ok::<(), GridError>(()),
            },
    {
        if row >= self.rows && col >= self.cols {
            Err(GridError::RowAndColIndexOutOfBounds)
        } else if row >= self.rows {
            Err(GridError::RowIndexOutOfBounds)
        } else if col >= self.cols {
            Err(GridError::ColIndexOutOfBounds)
        } else {
            Ok(())
        }
    }

    /// Replaces the cell at `(row, col)`, which must lie inside the grid.
    pub fn set_cell(&mut self, row: usize, col: usize, cell: Cell)
        requires
            old(self)@.wf(),
            old(self)@.in_bounds(row as int, col as int),
        ensures
            final(self)@ == old(self)@.with_cell(row as int, col as int, cell@),
    {
        let i = self.flat_index(row, col);
        let ghost cv = cell@;
        self.cells.set(i, cell);
        assert(cell_views(self.cells@) =~= old(self)@.cells.update(i as int, cv));
    }

    /// Replaces the cell at `(row, col)`, or reports which index lies outside
    /// and changes nothing.
    pub fn try_set_cell(&mut self, row: usize, col: usize, cell: Cell) -> (r: Result<(), GridError>)
        requires
            old(self)@.wf(),
        ensures
            match index_error(old(self)@.rows, old(self)@.cols, row as nat, col as nat) {
                Some(e) => r == Err::<(), GridError>(e) && final(self)@ == old(self)@,
                None => r is Ok && final(self)@ == old(self)@.with_cell(
                    row as int,
                    col as int,
                    cell@,
                ),
            },
    {
        match self.check_index(row, col) {
            Err(e) => Err(e),
            Ok(()) => {
                self.set_cell(row, col, cell);
                Ok(())
            },
        }
    }

    /// The cell at `(row, col)`, or `None` when it lies outside the grid.
    pub fn get_cell(&self, row: usize, col: usize) -> (r: Option<&Cell>)
        requires
            self@.wf(),
        ensures
            r is Some == self@.in_bounds(row as int, col as int),
            r is Some ==> r->0@ == self@.cell(row as int, col as int),
    {
        if row < self.rows && col < self.cols {
            Some(&self.cells[self.flat_index(row, col)])
        } else {
            None
        }
    }

    /// The cell at `(row, col)`, or which index lies outside the grid.
    pub fn try_get_cell(&self, row: usize, col: usize) -> (r: Result<&Cell, GridError>)
        requires
            self@.wf(),
        ensures
            match index_error(self@.rows, self@.cols, row as nat, col as nat) {
                Some(e) => r == Err::<&Cell, GridError>(e),
                None => r is Ok && r->Ok_0@ == self@.cell(row as int, col as int),
            },
    {
        match self.check_index(row, col) {
            Err(e) => Err(e),
            Ok(()) => {
                Ok(&self.cells[self.flat_index(row, col)])
            },
        }
    }

    /// The cell at `(row, col)` to change in place, or `None` when it lies
    /// outside the grid.
    pub fn get_cell_mut(&mut self, row: usize, col: usize) -> (r: Option<&mut Cell>)
        requires
            old(self)@.wf(),
        ensures
            r is Some == old(self)@.in_bounds(row as int, col as int),
            r is None ==> final(self)@ == old(self)@,
            r is Some ==> r->0@ == old(self)@.cell(row as int, col as int),
            r is Some ==> final(self)@ == old(self)@.with_cell(
                row as int,
                col as int,
                final(r->0)@,
            ),
    {
        if row < self.rows && col < self.cols {
            let i = self.flat_index(row, col);
            proof {
                lemma_views_update();
            }
            Some(&mut self.cells[i])
        } else {
            None
        }
    }

    /// The cells of one row, left to right; none when `row_index` lies outside.
    pub fn row_iter(&self, row_index: usize) -> (r: Vec<&Cell>)
        requires
            self@.wf(),
        ensures
            r@.len() == if row_index < self@.rows {
                self@.cols
            } else {
                0
            },
            forall|k: int| 0 <= k < r@.len() ==> #[trigger] r@[k]@ == self@.cell(row_index as int, k),
    {
        let mut r: Vec<&Cell> = Vec::new();
        if row_index < self.rows {
            let mut k: usize = 0;
            while k < self.cols
                invariant
                    self@.wf(),
                    row_index < self@.rows,
                    k <= self@.cols,
                    r@.len() == k,
                    forall|j: int| 0 <= j < k ==> #[trigger] r@[j]@ == self@.cell(row_index as int, j),
                decreases self.cols - k,
            {
                r.push(&self.cells[self.flat_index(row_index, k)]);
                k = k + 1;
            }
        }
        r
    }

    /// The cells of one column, top to bottom; none when `col_index` lies outside.
    pub fn col_iter(&self, col_index: usize) -> (r: Vec<&Cell>)
        requires
            self@.wf(),
        ensures
            r@.len() == if col_index < self@.cols {
                self@.rows
            } else {
                0
            },
            forall|k: int| 0 <= k < r@.len() ==> #[trigger] r@[k]@ == self@.cell(k, col_index as int),
    {
        let mut r: Vec<&Cell> = Vec::new();
        if col_index < self.cols {
            let mut k: usize = 0;
            while k < self.rows
                invariant
                    self@.wf(),
                    col_index < self@.cols,
                    k <= self@.rows,
                    r@.len() == k,
                    forall|j: int| 0 <= j < k ==> #[trigger] r@[j]@ == self@.cell(j, col_index as int),
                decreases self.rows - k,
            {
                r.push(&self.cells[self.flat_index(k, col_index)]);
                k = k + 1;
            }
        }
        r
    }

    /// All cells in row-major order.
    pub fn flat_iter(&self) -> (r: &[Cell])
        ensures
            cell_views(r@) == self@.cells,
    {
        self.cells.as_slice()
    }

    /// Overwrites the cells in row-major order with `cells`; positions past its
    /// end become empty cells and its surplus is dropped.
    pub fn set_cells(&mut self, cells: Vec<Cell>)
        requires
            old(self)@.wf(),
        ensures
            final(self)@.wf(),
            final(self)@.rows == old(self)@.rows,
            final(self)@.cols == old(self)@.cols,
            final(self)@.cells == fitted(cell_views(cells@), old(self)@.cells.len()),
    {
        let n = self.cells.len();
        self.cells = fit_cells(cells, n);
    }

    /// Changes the dimensions. Cells inside both the old and the new bounds
    /// keep their place; the others of the new grid are empty, and those of
    /// the old grid outside the new bounds are dropped.
    pub fn resize(&mut self, new_rows: usize, new_cols: usize)
        requires
            old(self)@.wf(),
            new_rows * new_cols <= usize::MAX,
        ensures
            final(self)@.is_resize_of(old(self)@, new_rows as nat, new_cols as nat),
    {
        let ghost orig = self@;
        let old_rows = self.rows;
        let old_cols = self.cols;
        let old_len = self.cells.len();
        let mut new_cells: Vec<Cell> = Vec::new();
        let mut r: usize = 0;
        while r < new_rows
            invariant
                orig.wf(),
                orig == old(self)@,
                old_rows == orig.rows,
                old_cols == orig.cols,
                self.cells@.len() == orig.cells.len(),
                self.cells@.len() == old_len,
                r <= new_rows,
                new_rows * new_cols <= usize::MAX,
                new_cells@.len() == r * new_cols,
                forall|r2: int, c2: int|
                    #![trigger cell_at(cell_views(new_cells@), new_cols as nat, r2, c2)]
                    0 <= r2 < r && 0 <= c2 < new_cols ==> cell_at(
                        cell_views(new_cells@),
                        new_cols as nat,
                        r2,
                        c2,
                    ) == if orig.in_bounds(r2, c2) {
                        orig.cell(r2, c2)
                    } else {
                        blank()
                    },
                forall|r2: int, c2: int|
                    #![trigger cell_at(cell_views(self.cells@), old_cols as nat, r2, c2)]
                    r <= r2 && orig.in_bounds(r2, c2) ==> cell_at(
                        cell_views(self.cells@),
                        old_cols as nat,
                        r2,
                        c2,
                    ) == orig.cell(r2, c2),
            decreases new_rows - r,
        {
            let mut c: usize = 0;
            proof {
                lemma_row_bound(r as int, new_rows as int, new_cols as int);
            }
            while c < new_cols
                invariant
                    orig.wf(),
                    old_rows == orig.rows,
                    old_cols == orig.cols,
                    self.cells@.len() == orig.cells.len(),
                    self.cells@.len() == old_len,
                    r < new_rows,
                    c <= new_cols,
                    new_rows * new_cols <= usize::MAX,
                    r * new_cols + new_cols <= new_rows * new_cols,
                    new_cells@.len() == r * new_cols + c,
                    forall|r2: int, c2: int|
                        #![trigger cell_at(cell_views(new_cells@), new_cols as nat, r2, c2)]
                        0 <= c2 < new_cols && (0 <= r2 < r || (r2 == r && c2 < c)) ==> cell_at(
                            cell_views(new_cells@),
                            new_cols as nat,
                            r2,
                            c2,
                        ) == if orig.in_bounds(r2, c2) {
                            orig.cell(r2, c2)
                        } else {
                            blank()
                        },
                    forall|r2: int, c2: int|
                        #![trigger cell_at(cell_views(self.cells@), old_cols as nat, r2, c2)]
                        (r < r2 || (r == r2 && c <= c2)) && orig.in_bounds(r2, c2) ==> cell_at(
                            cell_views(self.cells@),
                            old_cols as nat,
                            r2,
                            c2,
                        ) == orig.cell(r2, c2),
                decreases new_cols - c,
            {
                let ghost before = new_cells@;
                let ghost source = self.cells@;
                if r < old_rows && c < old_cols {
                    proof {
                        lemma_index_bound(r as int, c as int, old_rows as int, old_cols as int);
                    }
                    let cell = take_cell(&mut self.cells, r * old_cols + c);
                    new_cells.push(cell);
                    proof {
                        assert forall|r2: int, c2: int|
                            (r < r2 || (r == r2 && c + 1 <= c2)) && orig.in_bounds(
                                r2,
                                c2,
                            ) implies #[trigger] cell_at(
                            cell_views(self.cells@),
                            old_cols as nat,
                            r2,
                            c2,
                        ) == orig.cell(r2, c2) by {
                            lemma_index_distinct(r as int, c as int, r2, c2, old_cols as int);
                            lemma_index_bound(r2, c2, old_rows as int, old_cols as int);
                            assert(cell_at(cell_views(source), old_cols as nat, r2, c2) == orig.cell(
                                r2,
                                c2,
                            ));
                        }
                    }
                } else {
                    new_cells.push(Cell::default());
                }
                proof {
                    lemma_views_push();
                    assert forall|r2: int, c2: int|
                        0 <= c2 < new_cols && (0 <= r2 < r || (r2 == r && c2 < c + 1)) implies #[trigger] cell_at(
                        cell_views(new_cells@),
                        new_cols as nat,
                        r2,
                        c2,
                    ) == if orig.in_bounds(r2, c2) {
                        orig.cell(r2, c2)
                    } else {
                        blank()
                    } by {
                        if r2 < r {
                            lemma_index_bound(r2, c2, r as int, new_cols as int);
                            assert(cell_at(cell_views(before), new_cols as nat, r2, c2) == if orig.in_bounds(r2, c2) {
                                orig.cell(r2, c2)
                            } else {
                                blank()
                            });
                        } else if c2 < c {
                            assert(cell_at(cell_views(before), new_cols as nat, r2, c2) == if orig.in_bounds(r2, c2) {
                                orig.cell(r2, c2)
                            } else {
                                blank()
                            });
                        } else {
                            if orig.in_bounds(r2, c2) {
                                assert(cell_at(cell_views(source), old_cols as nat, r2, c2) == orig.cell(
                                    r2,
                                    c2,
                                ));
                            }
                        }
                    }
                }
                c = c + 1;
            }
            proof {
                lemma_next_row(r as int, new_cols as int);
            }
            r = r + 1;
        }
        self.cells = new_cells;
        self.rows = new_rows;
        self.cols = new_cols;
    }

    /// Inserts a row before row `row_insert_index` (at the end when it equals
    /// the row count). `new_row` is cut or padded with empty cells to the
    /// column count; the rows at and after the index move down by one.
    pub fn insert_row(&mut self, row_insert_index: usize, new_row: Vec<Cell>)
        requires
            old(self)@.wf(),
            row_insert_index <= old(self)@.rows,
            old(self)@.rows < usize::MAX,
            (old(self)@.rows + 1) * old(self)@.cols <= usize::MAX,
        ensures
            final(self)@.is_row_insert_of(old(self)@, row_insert_index as int, cell_views(new_row@)),
    {
        let ghost orig = self@;
        let cols = self.cols;
        proof {
            lemma_row_bound(self.rows as int, self.rows + 1, cols as int);
            lemma_next_row(self.rows as int, cols as int);
            if row_insert_index < self.rows {
                lemma_row_bound(row_insert_index as int, self.rows as int, cols as int);
            }
        }
        let mut row = fit_cells(new_row, cols);
        let mut tail = self.cells.split_off(row_insert_index * cols);
        self.cells.append(&mut row);
        self.cells.append(&mut tail);
        self.rows = self.rows + 1;
        proof {
            let at = row_insert_index * cols;
            let fit = fitted(cell_views(new_row@), cols as nat);
            let cv = cell_views(self.cells@);
            assert(cv =~= orig.cells.take(at as int) + fit + orig.cells.skip(at as int));
            assert forall|r: int, c: int|
                0 <= r < self@.rows && 0 <= c < self@.cols implies #[trigger] self@.cell(r, c) == if r
                < row_insert_index {
                orig.cell(r, c)
            } else if r == row_insert_index {
                fitted(cell_views(new_row@), cols as nat)[c]
            } else {
                orig.cell(r - 1, c)
            } by {
                lemma_index_bound(r, c, self@.rows as int, cols as int);
                let j = r * cols + c;
                if r < row_insert_index {
                    lemma_index_bound(r, c, row_insert_index as int, cols as int);
                    assert(cv[j] == orig.cells[j]);
                } else if r == row_insert_index {
                    assert(cv[j] == fit[c]);
                } else {
                    lemma_next_row(r - 1, cols as int);
                    lemma_row_bound(row_insert_index as int, r, cols as int);
                    assert(j - at - cols == (r - 1) * cols + c - at);
                    assert(cv[j] == orig.cells.skip(at as int)[j - at - cols]);
                    assert(cv[j] == orig.cells[(r - 1) * cols + c]);
                }
            }
        }
    }

    /// Inserts a column before column `col_insert_index` (at the end when it
    /// equals the column count). `new_column` is cut or padded with empty cells
    /// to the row count; the columns at and after the index move right by one.
    pub fn insert_col(&mut self, col_insert_index: usize, new_column: Vec<Cell>)
        requires
            old(self)@.wf(),
            col_insert_index <= old(self)@.cols,
            old(self)@.cols < usize::MAX,
            old(self)@.rows * (old(self)@.cols + 1) <= usize::MAX,
        ensures
            final(self)@.wf(),
            final(self)@.rows == old(self)@.rows,
            final(self)@.cols == old(self)@.cols + 1,
            forall|r: int, c: int|
                #![trigger final(self)@.cell(r, c)]
                0 <= r < final(self)@.rows && 0 <= c < final(self)@.cols ==> final(self)@.cell(r, c)
                    == col_inserted(
                    old(self)@,
                    fitted(cell_views(new_column@), old(self)@.rows),
                    col_insert_index as int,
                    r,
                    c,
                ),
    {
        let ghost orig = self@;
        let rows = self.rows;
        let old_cols = self.cols;
        let new_cols = old_cols + 1;
        let old_len = self.cells.len();
        let mut column = fit_cells(new_column, rows);
        let ghost col0 = cell_views(column@);
        let ghost at = col_insert_index as int;
        assert(column@.len() == col0.len());
        assert(forall|r2: int| 0 <= r2 < rows ==> #[trigger] column@[r2]@ == col0[r2]);
        let mut new_cells: Vec<Cell> = Vec::new();
        let mut r: usize = 0;
        while r < rows
            invariant
                orig.wf(),
                orig == old(self)@,
                rows == orig.rows,
                old_cols == orig.cols,
                new_cols == old_cols + 1,
                at == col_insert_index,
                col_insert_index <= old_cols,
                col0 == fitted(cell_views(new_column@), orig.rows),
                self.cells@.len() == old_len,
                old_len == orig.cells.len(),
                column@.len() == rows,
                col0.len() == rows,
                self.rows == rows,
                r <= rows,
                rows * new_cols <= usize::MAX,
                new_cells@.len() == r * new_cols,
                forall|r2: int, c2: int|
                    #![trigger cell_at(cell_views(new_cells@), new_cols as nat, r2, c2)]
                    0 <= r2 < r && 0 <= c2 < new_cols ==> cell_at(
                        cell_views(new_cells@),
                        new_cols as nat,
                        r2,
                        c2,
                    ) == col_inserted(orig, col0, at, r2, c2),
                forall|r2: int, c2: int|
                    #![trigger cell_at(cell_views(self.cells@), old_cols as nat, r2, c2)]
                    r <= r2 && orig.in_bounds(r2, c2) ==> cell_at(
                        cell_views(self.cells@),
                        old_cols as nat,
                        r2,
                        c2,
                    ) == orig.cell(r2, c2),
                forall|r2: int| r <= r2 < rows ==> #[trigger] column@[r2]@ == col0[r2],
            decreases rows - r,
        {
            let mut c: usize = 0;
            proof {
                lemma_row_bound(r as int, rows as int, new_cols as int);
            }
            while c < new_cols
                invariant
                    orig.wf(),
                    rows == orig.rows,
                    old_cols == orig.cols,
                    new_cols == old_cols + 1,
                    at == col_insert_index,
                    col_insert_index <= old_cols,
                    self.cells@.len() == old_len,
                    old_len == orig.cells.len(),
                    column@.len() == rows,
                    col0.len() == rows,
                    self.rows == rows,
                col0.len() == rows,
                self.rows == rows,
                    r < rows,
                    c <= new_cols,
                    r * new_cols + new_cols <= rows * new_cols,
                    rows * new_cols <= usize::MAX,
                    new_cells@.len() == r * new_cols + c,
                    forall|r2: int, c2: int|
                        #![trigger cell_at(cell_views(new_cells@), new_cols as nat, r2, c2)]
                        0 <= c2 < new_cols && (0 <= r2 < r || (r2 == r && c2 < c)) ==> cell_at(
                            cell_views(new_cells@),
                            new_cols as nat,
                            r2,
                            c2,
                        ) == col_inserted(orig, col0, at, r2, c2),
                    forall|r2: int, c2: int|
                        #![trigger cell_at(cell_views(self.cells@), old_cols as nat, r2, c2)]
                        (r < r2 || (r == r2 && (if c <= at {
                            c as int
                        } else {
                            c - 1
                        }) <= c2)) && orig.in_bounds(r2, c2) ==> cell_at(
                            cell_views(self.cells@),
                            old_cols as nat,
                            r2,
                            c2,
                        ) == orig.cell(r2, c2),
                    forall|r2: int|
                        (r < r2 < rows || (r2 == r && c <= at)) ==> #[trigger] column@[r2]@
                            == col0[r2],
                decreases new_cols - c,
            {
                let ghost before = new_cells@;
                let ghost source = self.cells@;
                let ghost column_before = column@;
                if c == col_insert_index {
                    let cell = take_cell(&mut column, r);
                    new_cells.push(cell);
                } else {
                    let oc = if c < col_insert_index {
                        c
                    } else {
                        c - 1
                    };
                    proof {
                        lemma_index_bound(r as int, oc as int, rows as int, old_cols as int);
                    }
                    let cell = take_cell(&mut self.cells, r * old_cols + oc);
                    new_cells.push(cell);
                    proof {
                        assert forall|r2: int, c2: int|
                            (r < r2 || (r == r2 && oc + 1 <= c2)) && orig.in_bounds(
                                r2,
                                c2,
                            ) implies #[trigger] cell_at(
                            cell_views(self.cells@),
                            old_cols as nat,
                            r2,
                            c2,
                        ) == orig.cell(r2, c2) by {
                            lemma_index_distinct(r as int, oc as int, r2, c2, old_cols as int);
                            lemma_index_bound(r2, c2, rows as int, old_cols as int);
                            assert(cell_at(cell_views(source), old_cols as nat, r2, c2) == orig.cell(
                                r2,
                                c2,
                            ));
                        }
                        assert(new_cells@.last()@ == orig.cell(r as int, oc as int)) by {
                            assert(cell_at(cell_views(source), old_cols as nat, r as int, oc as int)
                                == orig.cell(r as int, oc as int));
                        }
                    }
                }
                proof {
                    lemma_views_push();
                    assert forall|r2: int, c2: int|
                        0 <= c2 < new_cols && (0 <= r2 < r || (r2 == r && c2 < c + 1)) implies #[trigger] cell_at(
                        cell_views(new_cells@),
                        new_cols as nat,
                        r2,
                        c2,
                    ) == col_inserted(orig, col0, at, r2, c2) by {
                        if r2 < r {
                            lemma_index_bound(r2, c2, r as int, new_cols as int);
                            assert(cell_at(cell_views(before), new_cols as nat, r2, c2)
                                == col_inserted(orig, col0, at, r2, c2));
                        } else if c2 < c {
                            assert(cell_at(cell_views(before), new_cols as nat, r2, c2)
                                == col_inserted(orig, col0, at, r2, c2));
                        } else if c == col_insert_index {
                            assert(column_before[r as int]@ == col0[r as int]);
                        }
                    }
                }
                c = c + 1;
            }
            proof {
                lemma_next_row(r as int, new_cols as int);
            }
            r = r + 1;
        }
        self.cells = new_cells;
        self.cols = new_cols;
    }

    /// Replaces the cells of column `col_index`. `new_column` is cut or padded with
    /// empty cells to the row count.
    pub fn set_col(&mut self, col_index: usize, new_column: Vec<Cell>)
        requires
            old(self)@.wf(),
            col_index < old(self)@.cols,
        ensures
            final(self)@.wf(),
            final(self)@.rows == old(self)@.rows,
            final(self)@.cols == old(self)@.cols,
            forall|r: int, c: int|
                #![trigger final(self)@.cell(r, c)]
                old(self)@.in_bounds(r, c) ==> final(self)@.cell(r, c) == if c == col_index {
                    fitted(cell_views(new_column@), old(self)@.rows)[r]
                } else {
                    old(self)@.cell(r, c)
                },
    {
        let ghost orig = self@;
        let n = self.rows;
        let mut given = fit_cells(new_column, n);
        let ghost fit = cell_views(given@);
        assert(given@.len() == fit.len());
        assert(forall|k: int| 0 <= k < n ==> #[trigger] given@[k]@ == fit[k]);
        let mut k: usize = 0;
        while k < n
            invariant
                orig == old(self)@,
                orig.wf(),
                self@.wf(),
                self@.rows == orig.rows,
                self@.cols == orig.cols,
                n == orig.rows,
                col_index < orig.cols,
                fit == fitted(cell_views(new_column@), n as nat),
                given@.len() == n,
                k <= n,
                forall|j: int| k <= j < n ==> #[trigger] given@[j]@ == fit[j],
                forall|r2: int, c2: int|
                    #![trigger self@.cell(r2, c2)]
                    orig.in_bounds(r2, c2) ==> self@.cell(r2, c2) == if c2 == col_index && r2 < k {
                        fit[r2]
                    } else {
                        orig.cell(r2, c2)
                    },
            decreases n - k,
        {
            let ghost before = self@;
            let cell = take_cell(&mut given, k);
            let i = self.flat_index(k, col_index);
            proof {
                lemma_views_update();
            }
            self.cells.set(i, cell);
            proof {
                assert forall|r2: int, c2: int| #[trigger]
                    orig.in_bounds(r2, c2) implies self@.cell(r2, c2) == if c2 == col_index && r2 < k
                    + 1 {
                    fit[r2]
                } else {
                    orig.cell(r2, c2)
                } by {
                    lemma_index_bound(r2, c2, orig.rows as int, orig.cols as int);
                    if c2 != col_index || r2 != k {
                        lemma_index_distinct(k as int, col_index as int, r2, c2, orig.cols as int);
                        assert(self@.cell(r2, c2) == before.cell(r2, c2));
                    }
                }
            }
            k = k + 1;
        }
    }

    /// Replaces the cells of row `row_index`. `new_row` is cut or padded with
    /// empty cells to the column count.
    pub fn set_row(&mut self, row_index: usize, new_row: Vec<Cell>)
        requires
            old(self)@.wf(),
            row_index < old(self)@.rows,
        ensures
            final(self)@.wf(),
            final(self)@.rows == old(self)@.rows,
            final(self)@.cols == old(self)@.cols,
            forall|r: int, c: int|
                #![trigger final(self)@.cell(r, c)]
                old(self)@.in_bounds(r, c) ==> final(self)@.cell(r, c) == if r == row_index {
                    fitted(cell_views(new_row@), old(self)@.cols)[c]
                } else {
                    old(self)@.cell(r, c)
                },
    {
        let ghost orig = self@;
        let n = self.cols;
        let mut given = fit_cells(new_row, n);
        let ghost fit = cell_views(given@);
        assert(given@.len() == fit.len());
        assert(forall|k: int| 0 <= k < n ==> #[trigger] given@[k]@ == fit[k]);
        let mut k: usize = 0;
        while k < n
            invariant
                orig == old(self)@,
                orig.wf(),
                self@.wf(),
                self@.rows == orig.rows,
                self@.cols == orig.cols,
                n == orig.cols,
                row_index < orig.rows,
                fit == fitted(cell_views(new_row@), n as nat),
                given@.len() == n,
                k <= n,
                forall|j: int| k <= j < n ==> #[trigger] given@[j]@ == fit[j],
                forall|r2: int, c2: int|
                    #![trigger self@.cell(r2, c2)]
                    orig.in_bounds(r2, c2) ==> self@.cell(r2, c2) == if r2 == row_index && c2 < k {
                        fit[c2]
                    } else {
                        orig.cell(r2, c2)
                    },
            decreases n - k,
        {
            let ghost before = self@;
            let cell = take_cell(&mut given, k);
            let i = self.flat_index(row_index, k);
            proof {
                lemma_views_update();
            }
            self.cells.set(i, cell);
            proof {
                assert forall|r2: int, c2: int| #[trigger]
                    orig.in_bounds(r2, c2) implies self@.cell(r2, c2) == if r2 == row_index && c2 < k
                    + 1 {
                    fit[c2]
                } else {
                    orig.cell(r2, c2)
                } by {
                    lemma_index_bound(r2, c2, orig.rows as int, orig.cols as int);
                    if r2 != row_index || c2 != k {
                        lemma_index_distinct(row_index as int, k as int, r2, c2, orig.cols as int);
                        assert(self@.cell(r2, c2) == before.cell(r2, c2));
                    }
                }
            }
            k = k + 1;
        }
    }

    /// Removes every cell; the grid becomes 0 by 0.
    pub fn clear(&mut self)
        ensures
            final(self)@.wf(),
            final(self)@.rows == 0,
            final(self)@.cols == 0,
    {
        self.cells = Vec::new();
        self.rows = 0;
        self.cols = 0;
        assert(cell_views(self.cells@) =~= Seq::<CellView>::empty());
    }

    /// The height of each row.
    pub fn row_heights(&self) -> (r: Vec<usize>)
        requires
            self@.wf(),
        ensures
            r@.len() == self@.rows,
            forall|i: int| 0 <= i < self@.rows ==> #[trigger] r@[i] as nat == self@.row_height(i),
    {
        let mut heights: Vec<usize> = Vec::new();
        let mut row: usize = 0;
        while row < self.rows
            invariant
                self@.wf(),
                row <= self@.rows,
                heights@.len() == row,
                forall|i: int| 0 <= i < row ==> #[trigger] heights@[i] as nat == self@.row_height(i),
            decreases self.rows - row,
        {
            let mut tallest: usize = 0;
            let mut col: usize = 0;
            while col < self.cols
                invariant
                    self@.wf(),
                    row < self@.rows,
                    col <= self@.cols,
                    tallest == self@.row_height_upto(row as int, col as nat),
                decreases self.cols - col,
            {
                let h = self.cells[self.flat_index(row, col)].height();
                if h > tallest {
                    tallest = h;
                }
                col = col + 1;
            }
            heights.push(tallest);
            row = row + 1;
        }
        heights
    }

    /// The width of each column.
    pub fn col_widths(&self) -> (r: Vec<usize>)
        requires
            self@.wf(),
        ensures
            r@.len() == self@.cols,
            forall|i: int| 0 <= i < self@.cols ==> #[trigger] r@[i] as nat == self@.col_width(i),
    {
        let mut widths: Vec<usize> = Vec::new();
        let mut col: usize = 0;
        while col < self.cols
            invariant
                self@.wf(),
                col <= self@.cols,
                widths@.len() == col,
                forall|i: int| 0 <= i < col ==> #[trigger] widths@[i] as nat == self@.col_width(i),
            decreases self.cols - col,
        {
            let mut widest: usize = 0;
            let mut row: usize = 0;
            while row < self.rows
                invariant
                    self@.wf(),
                    col < self@.cols,
                    row <= self@.rows,
                    widest == self@.col_width_upto(col as int, row as nat),
                decreases self.rows - row,
            {
                let w = self.cells[self.flat_index(row, col)].width();
                if w > widest {
                    widest = w;
                }
                row = row + 1;
            }
            widths.push(widest);
            col = col + 1;
        }
        widths
    }

    /// The grid as text: a top border, the lines of each row with a middle
    /// border between two rows, and a bottom border, each line ended by a newline.
    pub fn render(&self) -> (r: String)
        requires
            self@.wf(),
        ensures
            r@ == self@.text(),
    {
        let ghost g = self@;
        let heights = self.row_heights();
        let widths = self.col_widths();
        assert(widths@ =~= g.widths());
        let top = Border::render_top_border(&widths);
        let mid = Border::render_mid_border(&widths);
        let bot = Border::render_bot_border(&widths);
        proof {
            reveal_strlit("\n");
            assert("\n"@ =~= seq!['\n']);
            lemma_terminated_push(Seq::empty(), top@);
            assert(Seq::<Seq<char>>::empty().push(top@) =~= seq![top@]);
            assert(terminated(Seq::<Seq<char>>::empty()) =~= Seq::<char>::empty());
        }
        let mut out = String::new();
        out.append(top.as_str());
        out.append("\n");
        assert(out@ =~= terminated(seq![top@]));
        let mut row: usize = 0;
        while row < self.rows
            invariant
                g == self@,
                g.wf(),
                row <= g.rows,
                heights@.len() == g.rows,
                forall|i: int| 0 <= i < g.rows ==> #[trigger] heights@[i] as nat == g.row_height(i),
                widths@.len() == g.cols,
                forall|i: int| 0 <= i < g.cols ==> #[trigger] widths@[i] as nat == g.col_width(i),
                top@ == top_border(g.widths()),
                mid@ == mid_border(g.widths()),
                "\n"@ == seq!['\n'],
                out@ == terminated(seq![top@] + g.body(row as nat)),
            decreases self.rows - row,
        {
            let ghost prefix = if row == 0 {
                seq![top@]
            } else {
                seq![top@] + g.body(row as nat) + seq![mid@]
            };
            if row > 0 {
                proof {
                    lemma_terminated_push(seq![top@] + g.body(row as nat), mid@);
                    assert((seq![top@] + g.body(row as nat)).push(mid@) =~= prefix);
                }
                out.append(mid.as_str());
                out.append("\n");
            } else {
                assert(seq![top@] + g.body(0) =~= prefix);
            }
            let height = heights[row];
            let mut columns: Vec<Vec<String>> = Vec::new();
            let mut col: usize = 0;
            while col < self.cols
                invariant
                    g == self@,
                    g.wf(),
                    row < g.rows,
                    col <= g.cols,
                    height as nat == g.row_height(row as int),
                    widths@.len() == g.cols,
                    forall|i: int| 0 <= i < g.cols ==> #[trigger] widths@[i] as nat == g.col_width(i),
                    columns@.len() == col,
                    forall|c: int|
                        0 <= c < col ==> (#[trigger] columns@[c])@.len() == height && forall|i: int|
                            0 <= i < height ==> #[trigger] columns@[c]@[i]@ == g.cell(
                                row as int,
                                c,
                            ).rendered(height as nat, g.col_width(c))[i],
                decreases self.cols - col,
            {
                let i = self.flat_index(row, col);
                columns.push(self.cells[i].render_lines(height, widths[col]));
                col = col + 1;
            }
            let mut line: usize = 0;
            while line < height
                invariant
                    g == self@,
                    g.wf(),
                    row < g.rows,
                    line <= height,
                    height as nat == g.row_height(row as int),
                    columns@.len() == g.cols,
                    forall|c: int|
                        0 <= c < g.cols ==> (#[trigger] columns@[c])@.len() == height && forall|i: int|
                            0 <= i < height ==> #[trigger] columns@[c]@[i]@ == g.cell(
                                row as int,
                                c,
                            ).rendered(height as nat, g.col_width(c))[i],
                    "\n"@ == seq!['\n'],
                    out@ == terminated(prefix + g.row_block(row as int).take(line as int)),
                decreases height - line,
            {
                let mut pieces: Vec<String> = Vec::new();
                let mut col: usize = 0;
                while col < self.cols
                    invariant
                        g == self@,
                        row < g.rows,
                        line < height,
                        col <= g.cols,
                        height as nat == g.row_height(row as int),
                        columns@.len() == g.cols,
                        forall|c: int|
                            0 <= c < g.cols ==> (#[trigger] columns@[c])@.len() == height && forall|
                                i: int,
                            |
                                0 <= i < height ==> #[trigger] columns@[c]@[i]@ == g.cell(
                                    row as int,
                                    c,
                                ).rendered(height as nat, g.col_width(c))[i],
                        pieces@.len() == col,
                        forall|c: int|
                            0 <= c < col ==> #[trigger] pieces@[c]@ == g.cell(
                                row as int,
                                c,
                            ).rendered(height as nat, g.col_width(c))[line as int],
                    decreases self.cols - col,
                {
                    pieces.push(columns[col][line].clone());
                    col = col + 1;
                }
                assert(views(pieces@) =~= Seq::new(
                    g.cols,
                    |c: int| g.cell(row as int, c).rendered(height as nat, g.col_width(c))[line as int],
                ));
                let text = Border::render_row_lines(pieces);
                proof {
                    let block = g.row_block(row as int);
                    assert(text@ == g.row_text_line(row as int, line as int));
                    lemma_terminated_push(prefix + block.take(line as int), text@);
                    assert((prefix + block.take(line as int)).push(text@) =~= prefix + block.take(
                        line + 1,
                    ));
                }
                out.append(text.as_str());
                out.append("\n");
                line = line + 1;
            }
            proof {
                let block = g.row_block(row as int);
                assert(block.take(height as int) =~= block);
                if row == 0 {
                    assert(prefix + block =~= seq![top@] + g.body(1));
                } else {
                    assert(prefix + block =~= seq![top@] + g.body((row + 1) as nat));
                }
            }
            row = row + 1;
        }
        proof {
            lemma_terminated_push(seq![top@] + g.body(g.rows), bot@);
            assert((seq![top@] + g.body(g.rows)).push(bot@) =~= g.lines());
        }
        out.append(bot.as_str());
        out.append("\n");
        out
    }
}


/// Two well-formed grids with the same dimensions and the same cell at every
/// position are equal.
pub proof fn lemma_grid_ext(a: GridView, b: GridView)
    requires
        a.wf(),
        b.wf(),
        a.rows == b.rows,
        a.cols == b.cols,
        forall|r: int, c: int| #![trigger a.cell(r, c)] a.in_bounds(r, c) ==> a.cell(r, c) == b.cell(r, c),
    ensures
        a == b,
{
    assert forall|j: int| 0 <= j < a.cells.len() implies a.cells[j] == b.cells[j] by {
        let cols = a.cols as int;
        if cols > 0 {
            let r = j / cols;
            let c = j % cols;
            assert(j == r * cols + c) by (nonlinear_arith)
                requires
                    cols > 0,
                    r == j / cols,
                    c == j % cols,
            ;
            assert(0 <= c < cols) by (nonlinear_arith)
                requires
                    cols > 0,
                    c == j % cols,
            ;
            assert(0 <= r < a.rows) by (nonlinear_arith)
                requires
                    cols > 0,
                    r == j / cols,
                    0 <= j < a.rows * cols,
            ;
            assert(a.cell(r, c) == b.cell(r, c));
        } else {
            assert(a.rows * a.cols == 0) by (nonlinear_arith)
                requires
                    a.cols == 0,
            ;
        }
    }
    assert(a.cells =~= b.cells);
}

/// Resizing a grid and then resizing it back to its own dimensions gives
/// every position its old cell where it also lay inside the intermediate
/// dimensions, and an empty cell elsewhere. When neither dimension shrank,
/// the grid comes back whole.
pub proof fn lemma_resize_round_trip(
    g: GridView,
    mid: GridView,
    back: GridView,
    rows: nat,
    cols: nat,
)
    requires
        g.wf(),
        mid.is_resize_of(g, rows, cols),
        back.is_resize_of(mid, g.rows, g.cols),
    ensures
        back.rows == g.rows,
        back.cols == g.cols,
        forall|r: int, c: int|
            #![trigger back.cell(r, c)]
            g.in_bounds(r, c) ==> back.cell(r, c) == if r < rows && c < cols {
                g.cell(r, c)
            } else {
                blank()
            },
        rows >= g.rows && cols >= g.cols ==> back == g,
{
    if rows >= g.rows && cols >= g.cols {
        assert forall|r: int, c: int| #![trigger back.cell(r, c)] back.in_bounds(r, c) implies back.cell(
            r,
            c,
        ) == g.cell(r, c) by {
            assert(mid.cell(r, c) == g.cell(r, c));
        }
        lemma_grid_ext(back, g);
    }
    assert forall|r: int, c: int| #![trigger back.cell(r, c)] g.in_bounds(r, c) implies back.cell(
        r,
        c,
    ) == if r < rows && c < cols {
        g.cell(r, c)
    } else {
        blank()
    } by {
        if r < rows && c < cols {
            assert(mid.cell(r, c) == g.cell(r, c));
        }
    }
}

/// Inserting a row at the index equal to the row count appends it: the old
/// cells stay where they were and the new row follows them.
pub proof fn lemma_insert_row_at_end_appends(g: GridView, after: GridView, row: Seq<CellView>)
    requires
        g.wf(),
        after.is_row_insert_of(g, g.rows as int, row),
    ensures
        after.cells == g.cells + fitted(row, g.cols),
{
    let expected = GridView { rows: g.rows + 1, cols: g.cols, cells: g.cells + fitted(row, g.cols) };
    assert((g.rows + 1) * g.cols == g.rows * g.cols + g.cols) by (nonlinear_arith);
    assert forall|r: int, c: int| #![trigger after.cell(r, c)] after.in_bounds(r, c) implies after.cell(
        r,
        c,
    ) == expected.cell(r, c) by {
        lemma_index_bound(r, c, after.rows as int, after.cols as int);
        if r < g.rows {
            lemma_index_bound(r, c, g.rows as int, g.cols as int);
        }
    }
    lemma_grid_ext(after, expected);
}

/// Inserting a row keeps the rows before the index, puts the new row at the
/// index, and moves each later row down by one with its cells unchanged.
pub proof fn lemma_insert_row_shifts(g: GridView, after: GridView, at: int, row: Seq<CellView>)
    requires
        g.wf(),
        0 <= at <= g.rows,
        after.is_row_insert_of(g, at, row),
    ensures
        forall|r: int, c: int| 0 <= r < at && 0 <= c < g.cols ==> #[trigger] after.cell(r, c) == g.cell(r, c),
        forall|r: int, c: int| at <= r < g.rows && 0 <= c < g.cols ==> #[trigger] after.cell(r + 1, c) == g.cell(r, c),
        forall|c: int| 0 <= c < g.cols ==> #[trigger] after.cell(at, c) == fitted(row, g.cols)[c],
{
    assert forall|r: int, c: int| at <= r < g.rows && 0 <= c < g.cols implies #[trigger] after.cell(r + 1, c) == g.cell(r, c) by {
        assert(after.in_bounds(r + 1, c));
    }
}

/// After the cell at an in-bounds position is set to `v`, reading that
/// position gives `v`, every other position keeps its cell, and the grid stays
/// well formed. Outside the bounds the error names the row, the column, or both.
pub proof fn lemma_set_then_get(g: GridView, r: int, c: int, v: CellView)
    requires
        g.wf(),
        g.in_bounds(r, c),
    ensures
        g.with_cell(r, c, v).wf(),
        g.with_cell(r, c, v).cell(r, c) == v,
        forall|r2: int, c2: int|
            g.in_bounds(r2, c2) && (r2 != r || c2 != c) ==> #[trigger] g.with_cell(r, c, v).cell(r2, c2)
                == g.cell(r2, c2),
        forall|row: nat, col: nat|
            #![trigger index_error(g.rows, g.cols, row, col)]
            (index_error(g.rows, g.cols, row, col) == Some(GridError::RowIndexOutOfBounds) <==> (row
                >= g.rows && col < g.cols)) && (index_error(g.rows, g.cols, row, col) == Some(
                GridError::ColIndexOutOfBounds,
            ) <==> (row < g.rows && col >= g.cols)) && (index_error(g.rows, g.cols, row, col)
                == Some(GridError::RowAndColIndexOutOfBounds) <==> (row >= g.rows && col >= g.cols))
                && (index_error(g.rows, g.cols, row, col) is None <==> g.in_bounds(row as int, col as int)),
{
    lemma_index_bound(r, c, g.rows as int, g.cols as int);
    assert forall|r2: int, c2: int|
        g.in_bounds(r2, c2) && (r2 != r || c2 != c) implies #[trigger] g.with_cell(r, c, v).cell(r2, c2)
        == g.cell(r2, c2) by {
        lemma_index_bound(r2, c2, g.rows as int, g.cols as int);
        lemma_index_distinct(r, c, r2, c2, g.cols as int);
    }
}

/// The rendered text is a function of the grid's content alone: two renders
/// of the same grid give the same text.
pub proof fn lemma_render_deterministic(a: GridView, b: GridView)
    requires
        a == b,
    ensures
        a.text() == b.text(),
{
}

} // verus!
