//! Piece geometry: the seven tetromino kinds, where each one spawns, and the
//! whole-piece transforms (translation, quarter turn about a pivot).
//!
//! Cells are handled four at a time. Nothing here moves a single cell of a
//! piece on its own.

use vstd::prelude::*;

verus! {

/// One of the seven fixed tetromino shapes.
#[derive(Clone, Copy, Debug, PartialEq, Eq, Hash, Structural)]
pub enum PieceKind {
    I,
    J,
    L,
    O,
    S,
    T,
    Z,
}

/// A cell position: column (growing rightward), then row (growing downward).
/// Rows below zero lie in the buffer zone above the visible board.
pub type Coord = (i32, i32);

/// The four cells of a piece, in the fixed order of its kind. The second cell
/// is the pivot of a quarter turn.
pub type Cells = [Coord; 4];

/// How many piece kinds there are.
pub const KIND_COUNT: usize = 7;

/// The kind with the given number, counting I, J, L, O, S, T, Z from zero.
pub open spec fn kind_at(index: int) -> Option<PieceKind> {
    if index == 0 {
        Some(PieceKind::I)
    } else if index == 1 {
        Some(PieceKind::J)
    } else if index == 2 {
        Some(PieceKind::L)
    } else if index == 3 {
        Some(PieceKind::O)
    } else if index == 4 {
        Some(PieceKind::S)
    } else if index == 5 {
        Some(PieceKind::T)
    } else if index == 6 {
        Some(PieceKind::Z)
    } else {
        None
    }
}

impl PieceKind {
    /// The number of this kind, the inverse of [`kind_at`].
    pub open spec fn ordinal(self) -> int {
        match self {
            PieceKind::I => 0,
            PieceKind::J => 1,
            PieceKind::L => 2,
            PieceKind::O => 3,
            PieceKind::S => 4,
            PieceKind::T => 5,
            PieceKind::Z => 6,
        }
    }

    /// Picks a kind by number. A caller that draws the number uniformly from
    /// `0..KIND_COUNT` draws the kind uniformly; any other number gives `None`.
    pub fn from_index(index: usize) -> (kind: Option<PieceKind>)
        ensures
            kind == kind_at(index as int),
            kind is Some <==> index < KIND_COUNT,
            kind is Some ==> kind->0.ordinal() == index,
    {
        match index {
            0 => Some(PieceKind::I),
            1 => Some(PieceKind::J),
            2 => Some(PieceKind::L),
            3 => Some(PieceKind::O),
            4 => Some(PieceKind::S),
            5 => Some(PieceKind::T),
            6 => Some(PieceKind::Z),
            _ => None,
        }
    }

    /// The number of this kind.
    pub fn index(self) -> (index: usize)
        ensures
            index == self.ordinal(),
            index < KIND_COUNT,
            kind_at(index as int) == Some(self),
    {
        match self {
            PieceKind::I => 0,
            PieceKind::J => 1,
            PieceKind::L => 2,
            PieceKind::O => 3,
            PieceKind::S => 4,
            PieceKind::T => 5,
            PieceKind::Z => 6,
        }
    }
}

/// The mathematical form of four cells.
pub open spec fn cells_view(cells: Cells) -> Seq<(int, int)> {
    Seq::new(4, |i: int| (cells[i].0 as int, cells[i].1 as int))
}

/// The cells a piece of the given kind occupies when it spawns: columns
/// counted from the piece's origin column, rows absolute and above the board.
pub open spec fn spawn_offsets_spec(kind: PieceKind) -> Seq<(int, int)> {
    match kind {
        PieceKind::I => seq![(0, -4), (0, -3), (0, -2), (0, -1)],
        PieceKind::J => seq![(1, -3), (1, -2), (1, -1), (0, -1)],
        PieceKind::L => seq![(0, -3), (0, -2), (0, -1), (1, -1)],
        PieceKind::O => seq![(0, -2), (1, -2), (0, -1), (1, -1)],
        PieceKind::S => seq![(2, -2), (1, -2), (1, -1), (0, -1)],
        PieceKind::T => seq![(0, -2), (1, -2), (2, -2), (1, -1)],
        PieceKind::Z => seq![(0, -2), (1, -2), (1, -1), (2, -1)],
    }
}

/// Every cell moved by `dx` columns and `dy` rows.
pub open spec fn shifted(cells: Seq<(int, int)>, dx: int, dy: int) -> Seq<(int, int)> {
    Seq::new(cells.len(), |i: int| (cells[i].0 + dx, cells[i].1 + dy))
}

/// A cell after a quarter turn about `pivot`.
pub open spec fn quarter_turn(cell: (int, int), pivot: (int, int)) -> (int, int) {
    (pivot.0 + pivot.1 - cell.1, pivot.1 + (cell.0 - pivot.0))
}

/// The piece moved by `dx` columns and then turned a quarter about its
/// second cell.
pub open spec fn turned(cells: Seq<(int, int)>, dx: int) -> Seq<(int, int)> {
    let moved = shifted(cells, dx, 0);
    Seq::new(cells.len(), |i: int| quarter_turn(moved[i], moved[1]))
}

/// The column of a spawning piece's origin on a board `cols` wide.
pub open spec fn origin_column(cols: int) -> int {
    cols / 2 - 1
}

/// Where a piece of the given kind spawns on a board `cols` wide.
pub open spec fn spawn_cells(kind: PieceKind, cols: int) -> Seq<(int, int)> {
    shifted(spawn_offsets_spec(kind), origin_column(cols), 0)
}

/// An offset after `turns` quarter turns about the origin.
pub open spec fn spun(offset: (int, int), turns: int) -> (int, int) {
    if turns == 0 {
        offset
    } else if turns == 1 {
        (-offset.1, offset.0)
    } else if turns == 2 {
        (-offset.0, -offset.1)
    } else {
        (offset.1, -offset.0)
    }
}

/// The canonical shape of a kind after `turns` quarter turns.
pub open spec fn oriented(kind: PieceKind, turns: int) -> Seq<(int, int)> {
    Seq::new(4, |i: int| spun(spawn_offsets_spec(kind)[i], turns))
}

/// The cells are the canonical shape of `kind`, turned `turns` quarter turns
/// and moved as a whole, cell for cell in the kind's order.
pub open spec fn has_orientation(cells: Seq<(int, int)>, kind: PieceKind, turns: int) -> bool {
    let shape = oriented(kind, turns);
    &&& cells.len() == 4
    &&& forall|i: int|
        0 <= i < 4 ==> (#[trigger] cells[i]).0 - cells[0].0 == shape[i].0 - shape[0].0
            && cells[i].1 - cells[0].1 == shape[i].1 - shape[0].1
}

/// The cells form the shape of `kind`, up to translation and quarter turns.
pub open spec fn is_tetromino(cells: Seq<(int, int)>, kind: PieceKind) -> bool {
    exists|turns: int| 0 <= turns < 4 && has_orientation(cells, kind, turns)
}

/// All coordinates of the cells are representable as `i32`.
pub open spec fn fits_i32(cells: Seq<(int, int)>) -> bool {
    forall|i: int|
        0 <= i < cells.len() ==> i32::MIN <= (#[trigger] cells[i]).0 <= i32::MAX && i32::MIN
            <= cells[i].1 <= i32::MAX
}

/// A freshly spawned piece has the shape of its kind, unturned.
pub proof fn lemma_spawn_is_tetromino(kind: PieceKind, cols: int)
    ensures
        has_orientation(spawn_cells(kind, cols), kind, 0),
        is_tetromino(spawn_cells(kind, cols), kind),
{
    let cells = spawn_cells(kind, cols);
    let shape = oriented(kind, 0);
    assert forall|i: int| 0 <= i < 4 implies (#[trigger] cells[i]).0 - cells[0].0 == shape[i].0
        - shape[0].0 && cells[i].1 - cells[0].1 == shape[i].1 - shape[0].1 by {}
    assert(has_orientation(cells, kind, 0));
}

/// Moving a piece as a whole keeps its shape and its orientation.
pub proof fn lemma_shift_keeps_shape(cells: Seq<(int, int)>, kind: PieceKind, dx: int, dy: int)
    requires
        is_tetromino(cells, kind),
    ensures
        is_tetromino(shifted(cells, dx, dy), kind),
        forall|turns: int|
            has_orientation(cells, kind, turns) ==> has_orientation(
                shifted(cells, dx, dy),
                kind,
                turns,
            ),
{
    let moved = shifted(cells, dx, dy);
    assert forall|turns: int| has_orientation(cells, kind, turns) implies has_orientation(
        moved,
        kind,
        turns,
    ) by {
        let shape = oriented(kind, turns);
        assert forall|i: int| 0 <= i < 4 implies (#[trigger] moved[i]).0 - moved[0].0 == shape[i].0
            - shape[0].0 && moved[i].1 - moved[0].1 == shape[i].1 - shape[0].1 by {}
    }
}

/// A quarter turn about the second cell, with any sideways correction, keeps
/// the shape of the piece and leaves the pivot in its row.
pub proof fn lemma_turn_keeps_shape(cells: Seq<(int, int)>, kind: PieceKind, dx: int)
    requires
        is_tetromino(cells, kind),
    ensures
        is_tetromino(turned(cells, dx), kind),
        turned(cells, dx)[1] == (cells[1].0 + dx, cells[1].1),
{
    let after = turned(cells, dx);
    let turns = choose|turns: int| 0 <= turns < 4 && has_orientation(cells, kind, turns);
    let next = if turns == 3 {
        0
    } else {
        turns + 1
    };
    let shape = oriented(kind, next);
    assert forall|i: int| 0 <= i < 4 implies (#[trigger] after[i]).0 - after[0].0 == shape[i].0
        - shape[0].0 && after[i].1 - after[0].1 == shape[i].1 - shape[0].1 by {}
    assert(has_orientation(after, kind, next));
}

/// No cell of a piece lies more than three columns or rows from its pivot.
pub proof fn lemma_cells_near_pivot(cells: Seq<(int, int)>, kind: PieceKind)
    requires
        is_tetromino(cells, kind),
    ensures
        cells.len() == 4,
        forall|i: int|
            0 <= i < 4 ==> -3 <= (#[trigger] cells[i]).0 - cells[1].0 <= 3 && -3 <= cells[i].1
                - cells[1].1 <= 3,
{
}

/// The four cells of a piece are four different positions.
pub proof fn lemma_cells_distinct(cells: Seq<(int, int)>, kind: PieceKind)
    requires
        is_tetromino(cells, kind),
    ensures
        cells.len() == 4,
        forall|i: int, j: int| 0 <= i < j < 4 ==> cells[i] != cells[j],
{
}

/// The spawn cells of a kind, relative to the piece's origin column.
pub fn spawn_offsets(kind: PieceKind) -> (cells: Cells)
    ensures
        cells_view(cells) == spawn_offsets_spec(kind),
{
    let cells: Cells = match kind {
        PieceKind::I => [(0, -4), (0, -3), (0, -2), (0, -1)],
        PieceKind::J => [(1, -3), (1, -2), (1, -1), (0, -1)],
        PieceKind::L => [(0, -3), (0, -2), (0, -1), (1, -1)],
        PieceKind::O => [(0, -2), (1, -2), (0, -1), (1, -1)],
        PieceKind::S => [(2, -2), (1, -2), (1, -1), (0, -1)],
        PieceKind::T => [(0, -2), (1, -2), (2, -2), (1, -1)],
        PieceKind::Z => [(0, -2), (1, -2), (1, -1), (2, -1)],
    };
    cells
}

/// Moves all four cells by `dx` columns and `dy` rows.
pub fn translate(cells: &Cells, dx: i32, dy: i32) -> (moved: Cells)
    requires
        fits_i32(shifted(cells_view(*cells), dx as int, dy as int)),
    ensures
        cells_view(moved) == shifted(cells_view(*cells), dx as int, dy as int),
{
    let ghost target = shifted(cells_view(*cells), dx as int, dy as int);
    assert(target[0] == (cells[0].0 + dx, cells[0].1 + dy));
    assert(target[1] == (cells[1].0 + dx, cells[1].1 + dy));
    assert(target[2] == (cells[2].0 + dx, cells[2].1 + dy));
    assert(target[3] == (cells[3].0 + dx, cells[3].1 + dy));
    let moved: Cells = [
        (cells[0].0 + dx, cells[0].1 + dy),
        (cells[1].0 + dx, cells[1].1 + dy),
        (cells[2].0 + dx, cells[2].1 + dy),
        (cells[3].0 + dx, cells[3].1 + dy),
    ];
    moved
}

/// Moves the piece by `dx` columns and turns it a quarter about its second
/// cell: a cell `(x, y)` goes to `(x0 + y0 - y, y0 + (x - x0))`, where
/// `(x0, y0)` is the moved pivot.
pub fn rotate_cells(cells: &Cells, dx: i32) -> (after: Cells)
    requires
        fits_i32(turned(cells_view(*cells), dx as int)),
    ensures
        cells_view(after) == turned(cells_view(*cells), dx as int),
{
    let ghost moved = shifted(cells_view(*cells), dx as int, 0);
    let ghost target = turned(cells_view(*cells), dx as int);
    assert(moved[0] == (cells[0].0 + dx, cells[0].1 as int) && target[0] == quarter_turn(
        moved[0],
        moved[1],
    ));
    assert(target[1] == quarter_turn(moved[1], moved[1]));
    assert(moved[2] == (cells[2].0 + dx, cells[2].1 as int) && target[2] == quarter_turn(
        moved[2],
        moved[1],
    ));
    assert(moved[3] == (cells[3].0 + dx, cells[3].1 as int) && target[3] == quarter_turn(
        moved[3],
        moved[1],
    ));
    let x0: i64 = cells[1].0 as i64 + dx as i64;
    let y0: i64 = cells[1].1 as i64;
    let after: Cells = [
        turn_one(cells[0], dx, x0, y0),
        turn_one(cells[1], dx, x0, y0),
        turn_one(cells[2], dx, x0, y0),
        turn_one(cells[3], dx, x0, y0),
    ];
    after
}

/// One cell of [`rotate_cells`]: the cell moved by `dx` columns and turned
/// about `(x0, y0)`.
fn turn_one(cell: Coord, dx: i32, x0: i64, y0: i64) -> (after: Coord)
    requires
        i32::MIN <= x0 <= i32::MAX,
        i32::MIN <= y0 <= i32::MAX,
        i32::MIN <= quarter_turn((cell.0 + dx, cell.1 as int), (x0 as int, y0 as int)).0
            <= i32::MAX,
        i32::MIN <= quarter_turn((cell.0 + dx, cell.1 as int), (x0 as int, y0 as int)).1
            <= i32::MAX,
    ensures
        (after.0 as int, after.1 as int) == quarter_turn(
            (cell.0 + dx, cell.1 as int),
            (x0 as int, y0 as int),
        ),
{
    let x: i64 = cell.0 as i64 + dx as i64;
    let y: i64 = cell.1 as i64;
    ((x0 + y0 - y) as i32, (y0 + (x - x0)) as i32)
}

/// The cells of a piece of the given kind as it spawns on a board `cols`
/// wide: its offsets, moved so that the origin column is `cols / 2 - 1`.
pub fn spawn(kind: PieceKind, cols: usize) -> (cells: Cells)
    requires
        cols <= i32::MAX,
    ensures
        cells_view(cells) == spawn_cells(kind, cols as int),
{
    let offsets = spawn_offsets(kind);
    let x0: i32 = (cols / 2) as i32 - 1;
    let ghost target = spawn_cells(kind, cols as int);
    assert forall|i: int| 0 <= i < 4 implies i32::MIN <= (#[trigger] target[i]).0 <= i32::MAX
        && i32::MIN <= target[i].1 <= i32::MAX by {}
    translate(&offsets, x0, 0)
}

} // verus!
