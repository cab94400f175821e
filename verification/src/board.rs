//! The board: a fixed grid of filled and empty cells, the collision test
//! against it, merging a landed piece into it, and clearing full rows.

use vstd::prelude::*;
use crate::piece::{cells_view, Cells, Coord};

verus! {

/// The state of one board cell. A filled cell keeps nothing of the piece
/// that filled it.
#[derive(Clone, Copy, Debug, PartialEq, Eq, Hash, Structural)]
pub enum Cell {
    Empty,
    Filled,
}

/// The mathematical form of a board: its rows from the top down, each a
/// sequence of cells from the left.
pub type Grid = Seq<Seq<Cell>>;

/// The largest number of rows or of columns a board can have. Positions are
/// `i32`, and a placement that is tried and rejected may lie a few cells
/// beyond a wall.
pub const MAX_EXTENT: usize = 0x7fff_fff0;

/// The number of columns of a grid.
pub open spec fn grid_cols(grid: Grid) -> int {
    if grid.len() == 0 {
        0
    } else {
        grid[0].len() as int
    }
}

/// The grid is a rectangle of at least one row and one column, within
/// [`MAX_EXTENT`] both ways.
pub open spec fn well_formed(grid: Grid) -> bool {
    &&& 1 <= grid.len() <= MAX_EXTENT
    &&& 1 <= grid_cols(grid) <= MAX_EXTENT
    &&& forall|r: int| 0 <= r < grid.len() ==> (#[trigger] grid[r]).len() == grid_cols(grid)
}

/// A row of `cols` empty cells.
pub open spec fn empty_row(cols: int) -> Seq<Cell> {
    Seq::new(cols as nat, |c: int| Cell::Empty)
}

/// A grid of `rows` by `cols` empty cells.
pub open spec fn empty_grid(rows: int, cols: int) -> Grid {
    Seq::new(rows as nat, |r: int| empty_row(cols))
}

/// The cell at `row`, `col` lies on the board and is filled. Nothing off
/// the board is filled, the buffer zone above it included.
pub open spec fn filled_at(grid: Grid, row: int, col: int) -> bool {
    &&& 0 <= row < grid.len()
    &&& 0 <= col < grid[row].len()
    &&& grid[row][col] == Cell::Filled
}

/// A cell may not be here: it is left or right of the board, below it, or on
/// a filled cell. A cell above the board, within its columns, is free.
pub open spec fn blocked(grid: Grid, cell: (int, int)) -> bool {
    ||| cell.0 < 0
    ||| cell.0 >= grid_cols(grid)
    ||| cell.1 >= grid.len()
    ||| filled_at(grid, cell.1, cell.0)
}

/// The collision predicate: some cell of the placement is blocked.
pub open spec fn collides(grid: Grid, cells: Seq<(int, int)>) -> bool {
    exists|i: int| 0 <= i < cells.len() && blocked(grid, #[trigger] cells[i])
}

/// Some cell of the placement lies above the board.
pub open spec fn pokes_above(cells: Seq<(int, int)>) -> bool {
    exists|i: int| 0 <= i < cells.len() && (#[trigger] cells[i]).1 < 0
}

/// The cells of a placement that lie above the board, in their order.
pub open spec fn above_board(cells: Seq<Coord>) -> Seq<Coord> {
    cells.filter(|cell: Coord| cell.1 < 0)
}

/// The cells of a placement that lie in the rows of the board, in their
/// order: those that can be seen.
pub open spec fn in_sight(cells: Seq<Coord>) -> Seq<Coord> {
    cells.filter(|cell: Coord| cell.1 >= 0)
}

/// The grid with every cell of the placement filled. Cells of the placement
/// off the grid change nothing.
pub open spec fn merged(grid: Grid, cells: Seq<(int, int)>) -> Grid {
    Seq::new(
        grid.len(),
        |r: int|
            Seq::new(
                grid[r].len(),
                |c: int|
                    if cells.contains((c, r)) {
                        Cell::Filled
                    } else {
                        grid[r][c]
                    },
            ),
    )
}

/// Every cell of the row is filled.
pub open spec fn row_is_full(row: Seq<Cell>) -> bool {
    forall|c: int| 0 <= c < row.len() ==> row[c] == Cell::Filled
}

/// The rows that are not full, in their order.
pub open spec fn surviving_rows(grid: Grid) -> Grid {
    grid.filter(|row: Seq<Cell>| !row_is_full(row))
}

/// How many rows of the grid are full.
pub open spec fn full_row_count(grid: Grid) -> int {
    grid.len() - surviving_rows(grid).len()
}

/// The grid after line clearing: all full rows leave at once, the rows that
/// stay keep their order, and as many empty rows come in at the top.
pub open spec fn cleared(grid: Grid) -> Grid {
    empty_grid(full_row_count(grid), grid_cols(grid)) + surviving_rows(grid)
}

/// The views of a sequence of stored rows.
pub open spec fn rows_view(rows: Seq<Vec<Cell>>) -> Grid {
    Seq::new(rows.len(), |r: int| rows[r]@)
}

/// The view of stored rows with one more row is the view with one more row.
proof fn lemma_rows_view_push(rows: Seq<Vec<Cell>>, row: Vec<Cell>)
    ensures
        rows_view(rows.push(row)) == rows_view(rows).push(row@),
{
}

/// Merging one more cell that lies on the grid fills exactly that cell;
/// one that lies above the grid changes nothing.
pub proof fn lemma_merge_push(grid: Grid, cells: Seq<(int, int)>, cell: (int, int))
    ensures
        0 <= cell.1 < grid.len() && 0 <= cell.0 < grid[cell.1].len() ==> merged(
            grid,
            cells.push(cell),
        ) == merged(grid, cells).update(
            cell.1,
            merged(grid, cells)[cell.1].update(cell.0, Cell::Filled),
        ),
        cell.1 < 0 ==> merged(grid, cells.push(cell)) == merged(grid, cells),
        merged(grid, Seq::<(int, int)>::empty()) == grid,
{
    let more = cells.push(cell);
    assert forall|p: (int, int)| more.contains(p) <==> (cells.contains(p) || p == cell) by {
        if more.contains(p) {
            let i = choose|i: int| 0 <= i < more.len() && more[i] == p;
        }
        if cells.contains(p) {
            let i = choose|i: int| 0 <= i < cells.len() && cells[i] == p;
            assert(more[i] == p);
        }
        if p == cell {
            assert(more[cells.len() as int] == p);
        }
    }
    if 0 <= cell.1 < grid.len() && 0 <= cell.0 < grid[cell.1].len() {
        let target = merged(grid, cells).update(
            cell.1,
            merged(grid, cells)[cell.1].update(cell.0, Cell::Filled),
        );
        assert forall|r: int| 0 <= r < grid.len() implies #[trigger] merged(grid, more)[r]
            =~= target[r] by {
            assert forall|c: int| 0 <= c < grid[r].len() implies merged(grid, more)[r][c]
                == target[r][c] by {}
        }
    }
    if cell.1 < 0 {
        assert forall|r: int| 0 <= r < grid.len() implies #[trigger] merged(grid, more)[r]
            =~= merged(grid, cells)[r] by {
            assert forall|c: int| 0 <= c < grid[r].len() implies merged(grid, more)[r][c]
                == merged(grid, cells)[r][c] by {}
        }
    }
    let none = Seq::<(int, int)>::empty();
    assert forall|r: int| 0 <= r < grid.len() implies #[trigger] merged(grid, none)[r]
        =~= grid[r] by {}
}

/// Merging keeps the shape of the grid.
pub proof fn lemma_merged_well_formed(grid: Grid, cells: Seq<(int, int)>)
    requires
        well_formed(grid),
    ensures
        well_formed(merged(grid, cells)),
        merged(grid, cells).len() == grid.len(),
        grid_cols(merged(grid, cells)) == grid_cols(grid),
{
}

/// Line clearing keeps the shape of the grid, and clears no more rows than
/// there are.
pub proof fn lemma_cleared_well_formed(grid: Grid)
    requires
        well_formed(grid),
    ensures
        well_formed(cleared(grid)),
        cleared(grid).len() == grid.len(),
        grid_cols(cleared(grid)) == grid_cols(grid),
        0 <= full_row_count(grid) <= grid.len(),
{
    let kept = surviving_rows(grid);
    let keeps = |row: Seq<Cell>| !row_is_full(row);
    grid.lemma_filter_len(keeps);
    let after = cleared(grid);
    let count = full_row_count(grid);
    assert forall|r: int| 0 <= r < after.len() implies (#[trigger] after[r]).len() == grid_cols(
        grid,
    ) by {
        if r >= count {
            let row = kept[r - count];
            grid.lemma_filter_contains_rev(keeps, row);
        }
    }
}

/// A grid without a full row keeps all its rows.
pub proof fn lemma_nothing_to_clear(grid: Grid)
    requires
        forall|r: int| 0 <= r < grid.len() ==> !row_is_full(#[trigger] grid[r]),
    ensures
        surviving_rows(grid) == grid,
        full_row_count(grid) == 0,
    decreases grid.len(),
{
    let keeps = |row: Seq<Cell>| !row_is_full(row);
    if grid.len() == 0 {
        reveal(Seq::filter);
    } else {
        let rest = grid.drop_last();
        assert forall|r: int| 0 <= r < rest.len() implies !row_is_full(#[trigger] rest[r]) by {}
        lemma_nothing_to_clear(rest);
        assert(grid =~= rest.push(grid.last()));
        rest.lemma_filter_push(grid.last(), keeps);
    }
}

/// After line clearing no row is full, so that clearing again clears
/// nothing: no row is counted twice.
pub proof fn lemma_cleared_has_no_full_row(grid: Grid)
    requires
        well_formed(grid),
    ensures
        forall|r: int| 0 <= r < grid.len() ==> !row_is_full(#[trigger] cleared(grid)[r]),
        full_row_count(cleared(grid)) == 0,
        cleared(cleared(grid)) == cleared(grid),
{
    let keeps = |row: Seq<Cell>| !row_is_full(row);
    let after = cleared(grid);
    let count = full_row_count(grid);
    lemma_cleared_well_formed(grid);
    assert forall|r: int| 0 <= r < after.len() implies !row_is_full(#[trigger] after[r]) by {
        if r < count {
            assert(after[r][0] == Cell::Empty);
        } else {
            grid.lemma_filter_pred(keeps, r - count);
        }
    }
    lemma_nothing_to_clear(after);
}

/// A grid whose only full row is row `full`: clearing removes that row, lets
/// the rows above it sink by one in their order, brings in one empty row at
/// the top, and leaves the rows below where they are.
pub proof fn lemma_clear_single_row(grid: Grid, full: int)
    requires
        well_formed(grid),
        0 <= full < grid.len(),
        forall|r: int| 0 <= r < grid.len() ==> (row_is_full(#[trigger] grid[r]) <==> r == full),
    ensures
        full_row_count(grid) == 1,
        cleared(grid) == seq![empty_row(grid_cols(grid))] + grid.remove(full),
        cleared(grid).len() == grid.len(),
        cleared(grid)[0] == empty_row(grid_cols(grid)),
        forall|r: int| 0 < r <= full ==> #[trigger] cleared(grid)[r] == grid[r - 1],
        forall|r: int| full < r < grid.len() ==> #[trigger] cleared(grid)[r] == grid[r],
{
    lemma_surviving_prefix(grid, full, grid.len() as int);
    assert(grid.take(grid.len() as int) =~= grid);
}

/// Of the first `n` rows of a grid whose only full row is row `full`, the
/// ones that are not full.
proof fn lemma_surviving_prefix(grid: Grid, full: int, n: int)
    requires
        0 <= full < grid.len(),
        0 <= n <= grid.len(),
        forall|r: int| 0 <= r < grid.len() ==> (row_is_full(#[trigger] grid[r]) <==> r == full),
    ensures
        n <= full ==> surviving_rows(grid.take(n)) == grid.take(n),
        n > full ==> surviving_rows(grid.take(n)) == grid.take(n).remove(full),
    decreases n,
{
    let keeps = |row: Seq<Cell>| !row_is_full(row);
    if n == 0 {
        reveal(Seq::filter);
    } else {
        lemma_surviving_prefix(grid, full, n - 1);
        let before = grid.take(n - 1);
        assert(grid.take(n) =~= before.push(grid[n - 1]));
        before.lemma_filter_push(grid[n - 1], keeps);
    }
}

/// Some cell of the placement lies above the board exactly if the list of
/// its cells above the board is not empty.
pub proof fn lemma_above_board_nonempty(cells: Cells)
    ensures
        above_board(cells@).len() > 0 <==> pokes_above(cells_view(cells)),
{
    let above = |cell: Coord| cell.1 < 0;
    let found = above_board(cells@);
    let view = cells_view(cells);
    if found.len() > 0 {
        cells@.lemma_filter_pred(above, 0);
        cells@.lemma_filter_contains_rev(above, found[0]);
        let i = choose|i: int| 0 <= i < cells@.len() && cells@[i] == found[0];
        assert(view[i].1 < 0);
    }
    if pokes_above(view) {
        let i = choose|i: int| 0 <= i < view.len() && (#[trigger] view[i]).1 < 0;
        cells@.lemma_filter_contains(above, i);
    }
}

/// A fixed-size grid of cells. Row 0 is the top row.
pub struct Board {
    cells: Vec<Vec<Cell>>,
}

impl View for Board {
    type V = Grid;

    closed spec fn view(&self) -> Grid {
        rows_view(self.cells@)
    }
}

/// A new row of `cols` empty cells.
fn blank_row(cols: usize) -> (row: Vec<Cell>)
    ensures
        row@ == empty_row(cols as int),
{
    let mut row: Vec<Cell> = Vec::new();
    let mut c: usize = 0;
    while c < cols
        invariant
            c <= cols,
            row@ == empty_row(c as int),
        decreases cols - c,
    {
        row.push(Cell::Empty);
        c += 1;
    }
    row
}

/// A copy of a stored row.
fn copy_row(row: &Vec<Cell>) -> (copy: Vec<Cell>)
    ensures
        copy@ == row@,
{
    let mut copy: Vec<Cell> = Vec::new();
    let mut c: usize = 0;
    while c < row.len()
        invariant
            c <= row.len(),
            copy@ == row@.take(c as int),
        decreases row.len() - c,
    {
        copy.push(row[c]);
        c += 1;
    }
    copy
}

/// Whether every cell of a stored row is filled.
fn row_full(row: &Vec<Cell>) -> (full: bool)
    ensures
        full == row_is_full(row@),
{
    let mut c: usize = 0;
    while c < row.len()
        invariant
            c <= row.len(),
            forall|k: int| 0 <= k < c ==> row@[k] == Cell::Filled,
        decreases row.len() - c,
    {
        if row[c] == Cell::Empty {
            return false;
        }
        c += 1;
    }
    true
}

/// The cells of a placement that can be seen, in their order: a cell in a
/// row below zero is above the board and hidden.
pub fn visible_cells(cells: &Cells) -> (seen: Vec<Coord>)
    ensures
        seen@ == in_sight(cells@),
{
    let ghost shows = |cell: Coord| cell.1 >= 0;
    let mut seen: Vec<Coord> = Vec::new();
    let mut i: usize = 0;
    proof {
        reveal(Seq::filter);
    }
    while i < 4
        invariant
            i <= 4,
            shows == (|cell: Coord| cell.1 >= 0),
            seen@ == cells@.take(i as int).filter(shows),
        decreases 4 - i,
    {
        proof {
            assert(cells@.take(i + 1) =~= cells@.take(i as int).push(cells@[i as int]));
            cells@.take(i as int).lemma_filter_push(cells@[i as int], shows);
        }
        if cells[i].1 >= 0 {
            seen.push(cells[i]);
        }
        i += 1;
    }
    assert(cells@.take(4) =~= cells@);
    seen
}

impl Board {
    /// The board keeps the shape it was made with.
    pub open spec fn wf(&self) -> bool {
        well_formed(self@)
    }

    /// An empty board of `rows` by `cols` cells.
    pub fn new(rows: usize, cols: usize) -> (board: Board)
        requires
            1 <= rows <= MAX_EXTENT,
            1 <= cols <= MAX_EXTENT,
        ensures
            board.wf(),
            board@ == empty_grid(rows as int, cols as int),
    {
        let mut cells: Vec<Vec<Cell>> = Vec::new();
        let mut r: usize = 0;
        while r < rows
            invariant
                r <= rows,
                rows_view(cells@) == empty_grid(r as int, cols as int),
            decreases rows - r,
        {
            let row = blank_row(cols);
            proof {
                lemma_rows_view_push(cells@, row);
            }
            cells.push(row);
            r += 1;
        }
        let board = Board { cells };
        board
    }

    /// The number of rows.
    pub fn rows(&self) -> (rows: usize)
        requires
            self.wf(),
        ensures
            rows == self@.len(),
            1 <= rows <= MAX_EXTENT,
    {
        self.cells.len()
    }

    /// The number of columns.
    pub fn cols(&self) -> (cols: usize)
        requires
            self.wf(),
        ensures
            cols == grid_cols(self@),
            1 <= cols <= MAX_EXTENT,
    {
        self.cells[0].len()
    }

    /// The cell at `row`, `col`.
    pub fn cell(&self, row: usize, col: usize) -> (cell: Cell)
        requires
            self.wf(),
            row < self@.len(),
            col < grid_cols(self@),
        ensures
            cell == self@[row as int][col as int],
    {
        self.cells[row][col]
    }

    /// Sets the cell at `row`, `col`.
    pub fn set(&mut self, row: usize, col: usize, cell: Cell)
        requires
            old(self).wf(),
            row < old(self)@.len(),
            col < grid_cols(old(self)@),
        ensures
            final(self).wf(),
            final(self)@ == old(self)@.update(
                row as int,
                old(self)@[row as int].update(col as int, cell),
            ),
    {
        assert(self@[row as int].len() == grid_cols(self@));
        self.cells[row][col] = cell;
        assert(self@ =~= old(self)@.update(
            row as int,
            old(self)@[row as int].update(col as int, cell),
        ));
    }

    /// Whether the cell at `row`, `col` is filled. No cell off the board is,
    /// so for a row above the board the answer is `false`.
    pub fn is_filled(&self, row: i32, col: i32) -> (filled: bool)
        requires
            self.wf(),
        ensures
            filled == filled_at(self@, row as int, col as int),
    {
        if row < 0 || col < 0 {
            return false;
        }
        let r = row as usize;
        let c = col as usize;
        r < self.cells.len() && c < self.cells[r].len() && self.cells[r][c] == Cell::Filled
    }

    /// Whether one cell may not be at the given position.
    fn is_blocked(&self, cell: Coord) -> (stop: bool)
        requires
            self.wf(),
        ensures
            stop == blocked(self@, (cell.0 as int, cell.1 as int)),
    {
        let (x, y) = cell;
        x < 0 || x as usize >= self.cols() || (y >= 0 && y as usize >= self.rows())
            || self.is_filled(y, x)
    }

    /// The collision predicate: whether the candidate placement would leave
    /// the board to the left, to the right or below, or overlap a filled
    /// cell. Cells above the board collide with nothing but the side walls.
    pub fn will_crash(&self, candidate: &Cells) -> (crash: bool)
        requires
            self.wf(),
        ensures
            crash == collides(self@, cells_view(*candidate)),
    {
        let ghost view = cells_view(*candidate);
        let mut i: usize = 0;
        while i < 4
            invariant
                i <= 4,
                self.wf(),
                view == cells_view(*candidate),
                forall|k: int| 0 <= k < i ==> !blocked(self@, #[trigger] view[k]),
            decreases 4 - i,
        {
            if self.is_blocked(candidate[i]) {
                assert(blocked(self@, view[i as int]));
                return true;
            }
            i += 1;
        }
        false
    }

    /// Fills the cell of every coordinate that lies on the board, and
    /// returns the coordinates that lie above it, in their order. The board
    /// takes no decision on them.
    pub fn merge(&mut self, cells: &Cells) -> (above: Vec<Coord>)
        requires
            old(self).wf(),
            forall|i: int|
                0 <= i < 4 && cells[i].1 >= 0 ==> 0 <= cells[i].0 < grid_cols(old(self)@)
                    && cells[i].1 < old(self)@.len(),
        ensures
            final(self).wf(),
            final(self)@ == merged(old(self)@, cells_view(*cells)),
            above@ == above_board(cells@),
    {
        let ghost view = cells_view(*cells);
        let ghost is_above = |cell: Coord| cell.1 < 0;
        let mut above: Vec<Coord> = Vec::new();
        let mut i: usize = 0;
        proof {
            lemma_merge_push(self@, Seq::empty(), (0, 0));
            assert(view.take(0) =~= Seq::<(int, int)>::empty());
            reveal(Seq::filter);
        }
        while i < 4
            invariant
                i <= 4,
                self.wf(),
                old(self).wf(),
                view == cells_view(*cells),
                is_above == (|cell: Coord| cell.1 < 0),
                self@.len() == old(self)@.len(),
                grid_cols(self@) == grid_cols(old(self)@),
                forall|k: int|
                    0 <= k < 4 && cells[k].1 >= 0 ==> 0 <= cells[k].0 < grid_cols(old(self)@)
                        && cells[k].1 < old(self)@.len(),
                self@ == merged(old(self)@, view.take(i as int)),
                above@ == cells@.take(i as int).filter(is_above),
            decreases 4 - i,
        {
            let (x, y) = cells[i];
            proof {
                lemma_merge_push(old(self)@, view.take(i as int), view[i as int]);
                assert(view.take(i + 1) =~= view.take(i as int).push(view[i as int]));
                assert(cells@.take(i + 1) =~= cells@.take(i as int).push(cells@[i as int]));
                cells@.take(i as int).lemma_filter_push(cells@[i as int], is_above);
            }
            if y < 0 {
                above.push((x, y));
            } else {
                let ghost before = self@;
                self.cells[y as usize][x as usize] = Cell::Filled;
                assert(self@ =~= before.update(
                    y as int,
                    before[y as int].update(x as int, Cell::Filled),
                ));
            }
            i += 1;
        }
        assert(view.take(4) =~= view);
        assert(cells@.take(4) =~= cells@);
        above
    }

    /// Removes every full row at once, lets the rows that stay sink in
    /// their order, and brings in as many empty rows at the top. Returns
    /// how many rows were cleared.
    pub fn clear_full_rows(&mut self) -> (count: usize)
        requires
            old(self).wf(),
        ensures
            final(self).wf(),
            final(self)@ == cleared(old(self)@),
            count == full_row_count(old(self)@),
    {
        let rows = self.rows();
        let cols = self.cols();
        let ghost keeps = |row: Seq<Cell>| !row_is_full(row);
        let mut kept: Vec<Vec<Cell>> = Vec::new();
        let mut r: usize = 0;
        proof {
            reveal(Seq::filter);
        }
        while r < rows
            invariant
                r <= rows,
                rows == self@.len(),
                self@ == old(self)@,
                self.wf(),
                keeps == (|row: Seq<Cell>| !row_is_full(row)),
                rows_view(kept@) == self@.take(r as int).filter(keeps),
                kept@.len() <= r,
            decreases rows - r,
        {
            proof {
                assert(self@.take(r + 1) =~= self@.take(r as int).push(self@[r as int]));
                self@.take(r as int).lemma_filter_push(self@[r as int], keeps);
            }
            if !row_full(&self.cells[r]) {
                let row = copy_row(&self.cells[r]);
                proof {
                    lemma_rows_view_push(kept@, row);
                }
                kept.push(row);
            }
            r += 1;
        }
        assert(self@.take(rows as int) =~= self@);
        let count = rows - kept.len();
        let mut fresh: Vec<Vec<Cell>> = Vec::new();
        let mut k: usize = 0;
        while k < count
            invariant
                k <= count,
                rows_view(fresh@) == empty_grid(k as int, cols as int),
            decreases count - k,
        {
            let row = blank_row(cols);
            proof {
                lemma_rows_view_push(fresh@, row);
            }
            fresh.push(row);
            k += 1;
        }
        let ghost top = rows_view(fresh@);
        let ghost rest = rows_view(kept@);
        fresh.append(&mut kept);
        assert(rows_view(fresh@) =~= top + rest);
        self.cells = fresh;
        proof {
            lemma_cleared_well_formed(old(self)@);
        }
        count
    }

    /// A copy of the rows as plain values, from the top down.
    pub fn to_rows(&self) -> (rows: Vec<Vec<Cell>>)
        requires
            self.wf(),
        ensures
            rows_view(rows@) == self@,
    {
        let mut rows: Vec<Vec<Cell>> = Vec::new();
        let mut r: usize = 0;
        while r < self.cells.len()
            invariant
                r <= self.cells.len(),
                rows_view(rows@) == self@.take(r as int),
            decreases self.cells.len() - r,
        {
            let row = copy_row(&self.cells[r]);
            proof {
                lemma_rows_view_push(rows@, row);
            }
            rows.push(row);
            r += 1;
        }
        rows
    }
}

} // verus!
