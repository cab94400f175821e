//! The game engine: the state of one game and the operations that change it.
//!
//! Every operation is a total function from the state before to the state
//! after. What it does is written down once, on the mathematical form of the
//! state ([`GameView`]), and the executable operation is proved to do exactly
//! that. The new pieces are handed in by the caller, who draws them; with the
//! same pieces a game always runs the same way.

use vstd::prelude::*;
use crate::board::{
    blocked, cleared, collides, empty_grid, empty_row, filled_at, full_row_count, grid_cols,
    lemma_above_board_nonempty, lemma_clear_single_row, lemma_cleared_well_formed,
    lemma_merged_well_formed, merged, pokes_above, row_is_full, rows_view, well_formed, Board,
    Cell, Grid, MAX_EXTENT,
};
use crate::piece::{
    cells_view, is_tetromino, lemma_cells_near_pivot, lemma_shift_keeps_shape,
    lemma_spawn_is_tetromino, lemma_turn_keeps_shape, rotate_cells, shifted, spawn, spawn_cells,
    translate, turned, Cells, PieceKind,
};
use crate::scoring::{
    award, awarded, derived_level, derived_speed, level_for, speed_for, BASE_LEVEL, BASE_SPEED,
    MAX_SCORE,
};

verus! {

/// The narrowest board a game can be played on: the widest piece spawns
/// three columns wide.
pub const MIN_COLS: usize = 3;

/// The highest row the pivot of a piece is ever in: the row it spawns in
/// for the kind that spawns highest.
pub const TOP_PIVOT_ROW: i32 = -3;

/// The mathematical form of a game.
pub struct GameView {
    /// The board.
    pub grid: Grid,
    /// The kind of the active piece.
    pub active_kind: PieceKind,
    /// The four cells of the active piece, in the order of its kind.
    pub active_cells: Seq<(int, int)>,
    /// The kind of the piece that comes next.
    pub next_kind: PieceKind,
    /// The score.
    pub score: nat,
    /// The level reached.
    pub level: nat,
    /// The least time between automatic descents, in milliseconds.
    pub speed: nat,
    /// Whether the game is running, as opposed to paused.
    pub playing: bool,
    /// Whether the game is over.
    pub game_over: bool,
}

/// The placement a rotation commits: the piece is turned a quarter after a
/// sideways correction of 0, -1, +1, -2 or +2 columns, and the first of
/// these, in this order, that does not collide is taken. `None` if all five
/// collide.
pub open spec fn rotation_target(grid: Grid, cells: Seq<(int, int)>) -> Option<Seq<(int, int)>> {
    if !collides(grid, turned(cells, 0)) {
        Some(turned(cells, 0))
    } else if !collides(grid, turned(cells, -1)) {
        Some(turned(cells, -1))
    } else if !collides(grid, turned(cells, 1)) {
        Some(turned(cells, 1))
    } else if !collides(grid, turned(cells, -2)) {
        Some(turned(cells, -2))
    } else if !collides(grid, turned(cells, 2)) {
        Some(turned(cells, 2))
    } else {
        None
    }
}

/// The sideways correction that the four cells beside the pivot call for,
/// two to its left and two to its right in its row. A cell is open if it
/// lies on the board's columns and is not filled. An `I` is pushed away from
/// a closed cell by one or two columns; any other piece by one column, off
/// the closed side; with both sides open nothing is corrected, and with both
/// cells next to the pivot closed there is no turning at all (`None`).
pub open spec fn neighbour_correction(grid: Grid, kind: PieceKind, pivot: (int, int)) -> Option<
    int,
> {
    let (x0, y0) = pivot;
    let cols = grid_cols(grid);
    let far_left = x0 > 1 && !filled_at(grid, y0, x0 - 2);
    let left = x0 > 0 && !filled_at(grid, y0, x0 - 1);
    let right = x0 < cols - 1 && !filled_at(grid, y0, x0 + 1);
    let far_right = x0 < cols - 2 && !filled_at(grid, y0, x0 + 2);
    if kind == PieceKind::I && !far_left && left && right && far_right {
        Some(1)
    } else if kind == PieceKind::I && !left && right && far_right {
        Some(2)
    } else if kind == PieceKind::I && far_left && left && !right {
        Some(-2)
    } else if kind == PieceKind::I && left && right && !far_right {
        Some(-1)
    } else if kind != PieceKind::I && !left && right {
        Some(1)
    } else if kind != PieceKind::I && left && !right {
        Some(-1)
    } else if !left && !right {
        None
    } else {
        Some(0)
    }
}

impl GameView {
    /// What holds of every state a game can be in:
    /// the board is a rectangle at least [`MIN_COLS`] wide; the active piece
    /// has the four cells of its kind, up to translation and quarter turns;
    /// none of its cells is outside the side walls, below the floor or on a
    /// filled cell; its pivot is not above [`TOP_PIVOT_ROW`]; and level
    /// and speed are the ones that belong to the score.
    pub open spec fn valid(self) -> bool {
        &&& well_formed(self.grid)
        &&& grid_cols(self.grid) >= MIN_COLS
        &&& is_tetromino(self.active_cells, self.active_kind)
        &&& !collides(self.grid, self.active_cells)
        &&& self.active_cells[1].1 >= TOP_PIVOT_ROW
        &&& self.score <= MAX_SCORE
        &&& self.level == level_for(self.score)
        &&& self.speed == speed_for(self.level)
    }

    /// Whether the active piece can be moved: the game runs and is not over.
    pub open spec fn accepts_moves(self) -> bool {
        self.playing && !self.game_over
    }

    /// The same state with the active piece at another placement.
    pub open spec fn with_cells(self, cells: Seq<(int, int)>) -> GameView {
        GameView { active_cells: cells, ..self }
    }

    /// A new game on the given board: paused, not over, no points, the first
    /// piece spawning and the second one waiting.
    pub open spec fn fresh(grid: Grid, first: PieceKind, second: PieceKind) -> GameView {
        GameView {
            grid,
            active_kind: first,
            active_cells: spawn_cells(first, grid_cols(grid)),
            next_kind: second,
            score: 0,
            level: BASE_LEVEL as nat,
            speed: BASE_SPEED as nat,
            playing: false,
            game_over: false,
        }
    }

    /// The state after a move by `dx` columns: the piece moves if the game
    /// accepts moves and the new placement does not collide; else nothing
    /// changes.
    pub open spec fn moved(self, dx: int) -> GameView {
        if self.accepts_moves() && !collides(self.grid, shifted(self.active_cells, dx, 0)) {
            self.with_cells(shifted(self.active_cells, dx, 0))
        } else {
            self
        }
    }

    /// The state after a rotation: nothing changes if the game does not
    /// accept moves, if the piece is an `O`, or if no correction fits.
    pub open spec fn rotated(self) -> GameView {
        if self.accepts_moves() && self.active_kind != PieceKind::O {
            match rotation_target(self.grid, self.active_cells) {
                Some(cells) => self.with_cells(cells),
                None => self,
            }
        } else {
            self
        }
    }

    /// The state after a rotation of the other kind, which tries a single
    /// correction, the one of [`neighbour_correction`]: the piece is turned
    /// if the game accepts moves, the piece is no `O`, there is a correction,
    /// and the corrected and turned placement does not collide.
    pub open spec fn rotated_by_neighbours(self) -> GameView {
        if self.accepts_moves() && self.active_kind != PieceKind::O {
            match neighbour_correction(self.grid, self.active_kind, self.active_cells[1]) {
                Some(dx) => if collides(self.grid, turned(self.active_cells, dx)) {
                    self
                } else {
                    self.with_cells(turned(self.active_cells, dx))
                },
                None => self,
            }
        } else {
            self
        }
    }

    /// Whether the active piece can go down one row.
    pub open spec fn can_descend(self) -> bool {
        self.accepts_moves() && !collides(self.grid, shifted(self.active_cells, 0, 1))
    }

    /// The state after the active piece has landed: it is merged into the
    /// board, full rows are cleared and scored, the next piece spawns, the
    /// upcoming one waits, and the game is over if a cell of the landed
    /// piece was still above the board.
    pub open spec fn landed(self, upcoming: PieceKind) -> GameView {
        let filled = merged(self.grid, self.active_cells);
        let score = awarded(self.score, full_row_count(filled) as nat);
        GameView {
            grid: cleared(filled),
            active_kind: self.next_kind,
            active_cells: spawn_cells(self.next_kind, grid_cols(self.grid)),
            next_kind: upcoming,
            score,
            level: level_for(score),
            speed: speed_for(level_for(score)),
            playing: self.playing,
            game_over: self.game_over || pokes_above(self.active_cells),
        }
    }

    /// The state after one step down: the piece goes down a row if it can,
    /// lands if the game accepts moves and it cannot, and nothing changes if
    /// the game does not accept moves.
    pub open spec fn stepped(self, upcoming: PieceKind) -> GameView {
        if self.can_descend() {
            self.with_cells(shifted(self.active_cells, 0, 1))
        } else if self.accepts_moves() {
            self.landed(upcoming)
        } else {
            self
        }
    }

    /// How many rows lie between the first cell of the active piece and the
    /// floor.
    pub open spec fn headroom(self) -> int {
        self.grid.len() - self.active_cells[0].1
    }

    /// The state after a hard drop: steps down are taken until one does not
    /// move the piece down.
    pub open spec fn dropped(self, upcoming: PieceKind) -> GameView
        decreases self.headroom(),
        when self.active_cells.len() > 0
    {
        if self.can_descend() {
            self.stepped(upcoming).dropped(upcoming)
        } else {
            self.stepped(upcoming)
        }
    }

    /// The state after `steps` steps down.
    pub open spec fn stepped_times(self, upcoming: PieceKind, steps: nat) -> GameView
        decreases steps,
    {
        if steps == 0 {
            self
        } else {
            self.stepped(upcoming).stepped_times(upcoming, (steps - 1) as nat)
        }
    }

    /// The state after the pause key: running becomes paused and paused
    /// becomes running.
    pub open spec fn toggled(self) -> GameView {
        GameView { playing: !self.playing, ..self }
    }

    /// The state after a restart: a new game on an empty board of the same
    /// size, running or paused as before.
    pub open spec fn restarted(self, first: PieceKind, second: PieceKind) -> GameView {
        GameView {
            playing: self.playing,
            ..GameView::fresh(empty_grid(self.grid.len() as int, grid_cols(self.grid)), first, second)
        }
    }
}

/// A spawning piece lies above the board and within its columns, so it
/// collides with nothing, whatever the board holds.
pub proof fn lemma_spawn_is_free(grid: Grid, kind: PieceKind)
    requires
        well_formed(grid),
        grid_cols(grid) >= MIN_COLS,
    ensures
        !collides(grid, spawn_cells(kind, grid_cols(grid))),
        spawn_cells(kind, grid_cols(grid))[1].1 >= TOP_PIVOT_ROW,
        forall|i: int| 0 <= i < 4 ==> (#[trigger] spawn_cells(kind, grid_cols(grid))[i]).1 < 0,
{
    let cells = spawn_cells(kind, grid_cols(grid));
    assert forall|i: int| 0 <= i < 4 implies (#[trigger] cells[i]).1 < 0 && 0 <= cells[i].0
        < grid_cols(grid) by {}
}

/// In a valid state the active piece overlaps nothing: each of its cells
/// lies within the columns and above the floor, and one that lies in a row
/// of the board lies on an empty cell.
pub proof fn lemma_active_piece_overlaps_nothing(state: GameView)
    requires
        state.valid(),
    ensures
        state.active_cells.len() == 4,
        forall|i: int|
            0 <= i < 4 ==> 0 <= (#[trigger] state.active_cells[i]).0 < grid_cols(state.grid)
                && state.active_cells[i].1 < state.grid.len() && (state.active_cells[i].1 >= 0
                ==> state.grid[state.active_cells[i].1][state.active_cells[i].0] == Cell::Empty),
{
    assert forall|i: int| 0 <= i < 4 implies 0 <= (#[trigger] state.active_cells[i]).0
        < grid_cols(state.grid) && state.active_cells[i].1 < state.grid.len() && (
    state.active_cells[i].1 >= 0
        ==> state.grid[state.active_cells[i].1][state.active_cells[i].0] == Cell::Empty) by {}
}

/// A new game is in a valid state.
pub proof fn lemma_fresh_valid(grid: Grid, first: PieceKind, second: PieceKind)
    requires
        well_formed(grid),
        grid_cols(grid) >= MIN_COLS,
    ensures
        GameView::fresh(grid, first, second).valid(),
{
    lemma_spawn_is_free(grid, first);
    lemma_spawn_is_tetromino(first, grid_cols(grid));
}

/// Every operation leads from a valid state to a valid state: the active
/// piece stays one of the seven shapes, and never overlaps a filled cell or
/// leaves the board sideways or downward.
pub proof fn lemma_operations_keep_valid(
    state: GameView,
    dx: int,
    first: PieceKind,
    second: PieceKind,
)
    requires
        state.valid(),
    ensures
        state.moved(dx).valid(),
        state.rotated().valid(),
        state.rotated_by_neighbours().valid(),
        state.landed(first).valid(),
        state.stepped(first).valid(),
        state.toggled().valid(),
        state.restarted(first, second).valid(),
{
    lemma_shift_keeps_shape(state.active_cells, state.active_kind, dx, 0);
    lemma_shift_keeps_shape(state.active_cells, state.active_kind, 0, 1);
    lemma_turn_keeps_shape(state.active_cells, state.active_kind, 0);
    lemma_turn_keeps_shape(state.active_cells, state.active_kind, -1);
    lemma_turn_keeps_shape(state.active_cells, state.active_kind, 1);
    lemma_turn_keeps_shape(state.active_cells, state.active_kind, -2);
    lemma_turn_keeps_shape(state.active_cells, state.active_kind, 2);
    lemma_landed_valid(state, first);
    let blank = empty_grid(state.grid.len() as int, grid_cols(state.grid));
    lemma_fresh_valid(blank, first, second);
}

/// Landing leads from a valid state to a valid state.
proof fn lemma_landed_valid(state: GameView, upcoming: PieceKind)
    requires
        state.valid(),
    ensures
        state.landed(upcoming).valid(),
        state.landed(upcoming).grid.len() == state.grid.len(),
        grid_cols(state.landed(upcoming).grid) == grid_cols(state.grid),
{
    let filled = merged(state.grid, state.active_cells);
    lemma_merged_well_formed(state.grid, state.active_cells);
    lemma_cleared_well_formed(filled);
    lemma_spawn_is_free(cleared(filled), state.next_kind);
    lemma_spawn_is_tetromino(state.next_kind, grid_cols(state.grid));
}

/// A hard drop leads from a valid state to a valid state.
pub proof fn lemma_dropped_valid(state: GameView, upcoming: PieceKind)
    requires
        state.valid(),
    ensures
        state.dropped(upcoming).valid(),
    decreases state.headroom(),
{
    lemma_operations_keep_valid(state, 0, upcoming, upcoming);
    if state.can_descend() {
        lemma_descent_uses_headroom(state, upcoming);
        lemma_dropped_valid(state.stepped(upcoming), upcoming);
    }
}

/// A step down that moves the piece uses up one row of headroom, of which
/// some is left.
pub proof fn lemma_descent_uses_headroom(state: GameView, upcoming: PieceKind)
    requires
        state.valid(),
        state.can_descend(),
    ensures
        state.stepped(upcoming).headroom() == state.headroom() - 1,
        state.stepped(upcoming).headroom() > 0,
        state.stepped(upcoming).active_cells.len() == 4,
{
}

/// Pausing twice changes nothing: the game is running or paused as it was,
/// and all the rest of the state was never touched.
pub proof fn lemma_toggled_twice(state: GameView)
    ensures
        state.toggled().toggled() == state,
        state.toggled().playing != state.playing,
        state.toggled() == (GameView { playing: !state.playing, ..state }),
{
}

/// A piece that touches the left wall does not move further left, and one
/// that touches the right wall does not move further right: the state stays
/// as it is.
pub proof fn lemma_wall_stops_move(state: GameView, i: int)
    requires
        0 <= i < state.active_cells.len(),
    ensures
        state.active_cells[i].0 == 0 ==> state.moved(-1) == state,
        state.active_cells[i].0 == grid_cols(state.grid) - 1 ==> state.moved(1) == state,
{
    let left = shifted(state.active_cells, -1, 0);
    let right = shifted(state.active_cells, 1, 0);
    if state.active_cells[i].0 == 0 {
        assert(left[i].0 < 0);
    }
    if state.active_cells[i].0 == grid_cols(state.grid) - 1 {
        assert(right[i].0 >= grid_cols(state.grid));
    }
}

/// Rotating an `O` piece changes nothing, whatever the board holds.
pub proof fn lemma_rotating_o_changes_nothing(state: GameView)
    requires
        state.active_kind == PieceKind::O,
    ensures
        state.rotated() == state,
        state.rotated_by_neighbours() == state,
{
}

/// Once the game is over, or while it is paused, no move, rotation, step
/// down or hard drop changes anything: board, piece and score stay as they
/// are until a restart.
pub proof fn lemma_frozen_without_moves(state: GameView, dx: int, upcoming: PieceKind)
    requires
        !state.accepts_moves(),
        state.active_cells.len() > 0,
    ensures
        state.moved(dx) == state,
        state.rotated() == state,
        state.rotated_by_neighbours() == state,
        state.stepped(upcoming) == state,
        state.dropped(upcoming) == state,
{
}

/// A piece that lands with a cell above the board ends the game.
pub proof fn lemma_landing_above_ends_game(state: GameView, upcoming: PieceKind)
    requires
        state.accepts_moves(),
        !state.can_descend(),
        pokes_above(state.active_cells),
    ensures
        state.stepped(upcoming).game_over,
        !state.stepped(upcoming).accepts_moves(),
{
}

/// A landing that leaves exactly one row full, row `full`: that row goes,
/// the rows above it sink by one in their order, one empty row comes in at
/// the top, the rows below stay, and the score grows by 100, or stops at
/// [`MAX_SCORE`].
pub proof fn lemma_landing_clears_single_row(state: GameView, upcoming: PieceKind, full: int)
    requires
        state.valid(),
        0 <= full < state.grid.len(),
        forall|r: int|
            0 <= r < state.grid.len() ==> (row_is_full(
                #[trigger] merged(state.grid, state.active_cells)[r],
            ) <==> r == full),
    ensures
        state.landed(upcoming).score == if state.score + 100 <= MAX_SCORE {
            state.score + 100
        } else {
            MAX_SCORE as nat
        },
        state.landed(upcoming).grid.len() == state.grid.len(),
        state.landed(upcoming).grid[0] == empty_row(grid_cols(state.grid)),
        forall|r: int|
            0 < r <= full ==> #[trigger] state.landed(upcoming).grid[r] == merged(
                state.grid,
                state.active_cells,
            )[r - 1],
        forall|r: int|
            full < r < state.grid.len() ==> #[trigger] state.landed(upcoming).grid[r] == merged(
                state.grid,
                state.active_cells,
            )[r],
{
    let filled = merged(state.grid, state.active_cells);
    lemma_merged_well_formed(state.grid, state.active_cells);
    lemma_clear_single_row(filled, full);
    crate::scoring::lemma_clear_bonus_values();
}

/// A hard drop is a run of steps down: there is a number of steps, no more
/// than the headroom, such that every step but the last moves the piece
/// down, the last one does not, and the state after them is the state after
/// the drop.
pub proof fn lemma_drop_is_repeated_descent(state: GameView, upcoming: PieceKind) -> (steps: nat)
    requires
        state.valid(),
    ensures
        1 <= steps,
        state.accepts_moves() ==> steps <= state.headroom(),
        forall|k: nat| k + 1 < steps ==> (#[trigger] state.stepped_times(upcoming, k)).can_descend(),
        !state.stepped_times(upcoming, (steps - 1) as nat).can_descend(),
        state.stepped_times(upcoming, steps) == state.dropped(upcoming),
    decreases state.headroom(),
{
    if state.can_descend() {
        lemma_descent_uses_headroom(state, upcoming);
        lemma_operations_keep_valid(state, 0, upcoming, upcoming);
        let next = state.stepped(upcoming);
        let rest = lemma_drop_is_repeated_descent(next, upcoming);
        let steps = rest + 1;
        assert forall|k: nat| k + 1 < steps implies (#[trigger] state.stepped_times(
            upcoming,
            k,
        )).can_descend() by {
            if k > 0 {
                assert(state.stepped_times(upcoming, k) == next.stepped_times(
                    upcoming,
                    (k - 1) as nat,
                ));
            }
        }
        assert(state.stepped_times(upcoming, (steps - 1) as nat) == if steps - 1 == 0 {
            state
        } else {
            next.stepped_times(upcoming, (steps - 2) as nat)
        });
        steps
    } else {
        assert(state.stepped_times(upcoming, 1) == state.stepped(upcoming).stepped_times(
            upcoming,
            0,
        ));
        1
    }
}

/// What a renderer draws: a copy of the state of a game as plain values.
#[derive(Clone, Debug, PartialEq, Eq)]
pub struct Snapshot {
    /// The rows of the board from the top down.
    pub rows: Vec<Vec<Cell>>,
    /// The kind of the active piece.
    pub active_kind: PieceKind,
    /// The cells of the active piece. Those in rows below zero are above
    /// the board and not to be seen.
    pub active_cells: Cells,
    /// The kind of the piece that comes next.
    pub next_kind: PieceKind,
    /// The cells the next piece will spawn at.
    pub next_cells: Cells,
    /// The score.
    pub score: u32,
    /// The level reached.
    pub level: u32,
    /// The least time between automatic descents, in milliseconds.
    pub speed: u32,
    /// Whether the game is running, as opposed to paused.
    pub playing: bool,
    /// Whether the game is over.
    pub game_over: bool,
}

/// One game: the board, the active piece, the piece that comes next, and
/// the score with what follows from it.
pub struct Game {
    board: Board,
    active_kind: PieceKind,
    active_cells: Cells,
    next_kind: PieceKind,
    next_cells: Cells,
    score: u32,
    level: u32,
    speed: u32,
    playing: bool,
    game_over: bool,
}

impl View for Game {
    type V = GameView;

    closed spec fn view(&self) -> GameView {
        GameView {
            grid: self.board@,
            active_kind: self.active_kind,
            active_cells: cells_view(self.active_cells),
            next_kind: self.next_kind,
            score: self.score as nat,
            level: self.level as nat,
            speed: self.speed as nat,
            playing: self.playing,
            game_over: self.game_over,
        }
    }
}

impl Game {
    /// The stored spawn cells of the next piece are those of its kind.
    pub closed spec fn next_ready(&self) -> bool {
        cells_view(self.next_cells) == spawn_cells(self.next_kind, grid_cols(self.board@))
    }

    /// The game is in a valid state. Every constructor gives such a game and
    /// every operation keeps it so.
    pub open spec fn wf(&self) -> bool {
        self@.valid() && self.next_ready()
    }

    /// A new game on an empty board of `rows` by `cols` cells. The game
    /// starts paused, with the first piece spawning above the board and the
    /// second one waiting.
    pub fn new(rows: usize, cols: usize, first: PieceKind, second: PieceKind) -> (game: Game)
        requires
            1 <= rows <= MAX_EXTENT,
            MIN_COLS <= cols <= MAX_EXTENT,
        ensures
            game.wf(),
            game@ == GameView::fresh(empty_grid(rows as int, cols as int), first, second),
    {
        let board = Board::new(rows, cols);
        Game::with_board(board, first, second)
    }

    /// A new game on a board that already holds cells.
    pub fn with_board(board: Board, first: PieceKind, second: PieceKind) -> (game: Game)
        requires
            board.wf(),
            grid_cols(board@) >= MIN_COLS,
        ensures
            game.wf(),
            game@ == GameView::fresh(board@, first, second),
    {
        let cols = board.cols();
        proof {
            lemma_fresh_valid(board@, first, second);
        }
        Game {
            board,
            active_kind: first,
            active_cells: spawn(first, cols),
            next_kind: second,
            next_cells: spawn(second, cols),
            score: 0,
            level: BASE_LEVEL,
            speed: BASE_SPEED,
            playing: false,
            game_over: false,
        }
    }

    /// The collision predicate against this game's board.
    pub fn will_crash(&self, candidate: &Cells) -> (crash: bool)
        requires
            self.wf(),
        ensures
            crash == collides(self@.grid, cells_view(*candidate)),
    {
        self.board.will_crash(candidate)
    }

    /// What is known of the cells of the active piece in a valid game: they
    /// lie within the columns and above the floor, and near the pivot.
    proof fn lemma_active_bounds(&self)
        requires
            self.wf(),
        ensures
            forall|i: int|
                0 <= i < 4 ==> 0 <= (#[trigger] self.active_cells[i]).0 < grid_cols(self.board@)
                    && TOP_PIVOT_ROW - 3 <= self.active_cells[i].1 < self.board@.len(),
            1 <= self.board@.len() <= MAX_EXTENT,
            MIN_COLS <= grid_cols(self.board@) <= MAX_EXTENT,
    {
        let cells = cells_view(self.active_cells);
        lemma_cells_near_pivot(cells, self.active_kind);
        assert forall|i: int| 0 <= i < 4 implies 0 <= (#[trigger] self.active_cells[i]).0
            < grid_cols(self.board@) && TOP_PIVOT_ROW - 3 <= self.active_cells[i].1
            < self.board@.len() by {
            assert(cells[i] == (self.active_cells[i].0 as int, self.active_cells[i].1 as int));
        }
    }

    /// The active piece moved by `dx` columns and `dy` rows, each at most
    /// two either way.
    fn shifted_piece(&self, dx: i32, dy: i32) -> (cells: Cells)
        requires
            self.wf(),
            -2 <= dx <= 2,
            -2 <= dy <= 2,
        ensures
            cells_view(cells) == shifted(self@.active_cells, dx as int, dy as int),
    {
        proof {
            self.lemma_active_bounds();
            let target = shifted(cells_view(self.active_cells), dx as int, dy as int);
            assert forall|i: int| 0 <= i < target.len() implies i32::MIN <= (#[trigger] target[i]).0
                <= i32::MAX && i32::MIN <= target[i].1 <= i32::MAX by {
                assert(cells_view(self.active_cells)[i] == (
                    self.active_cells[i].0 as int,
                    self.active_cells[i].1 as int,
                ));
            }
        }
        translate(&self.active_cells, dx, dy)
    }

    /// The active piece after a sideways correction of `dx` columns and a
    /// quarter turn, if that placement does not collide.
    fn try_turn(&self, dx: i32) -> (fit: Option<Cells>)
        requires
            self.wf(),
            -2 <= dx <= 2,
        ensures
            fit is Some <==> !collides(self@.grid, turned(self@.active_cells, dx as int)),
            fit is Some ==> cells_view(fit->0) == turned(self@.active_cells, dx as int),
    {
        proof {
            self.lemma_active_bounds();
            let cells = cells_view(self.active_cells);
            let target = turned(cells, dx as int);
            lemma_cells_near_pivot(cells, self.active_kind);
            assert forall|i: int| 0 <= i < 4 implies i32::MIN <= (#[trigger] target[i]).0
                <= i32::MAX && i32::MIN <= target[i].1 <= i32::MAX by {}
        }
        let candidate = rotate_cells(&self.active_cells, dx);
        if self.board.will_crash(&candidate) {
            None
        } else {
            Some(candidate)
        }
    }

    /// Puts the active piece at a placement that was tried and fits.
    fn place(&mut self, cells: Cells)
        requires
            old(self).wf(),
            old(self)@.with_cells(cells_view(cells)).valid(),
        ensures
            final(self).wf(),
            final(self)@ == old(self)@.with_cells(cells_view(cells)),
    {
        self.active_cells = cells;
    }

    /// Moves the active piece one column to the left, unless a wall or a
    /// filled cell is in the way, the game is paused, or it is over.
    pub fn move_left(&mut self)
        requires
            old(self).wf(),
        ensures
            final(self).wf(),
            final(self)@ == old(self)@.moved(-1),
    {
        self.move_sideways(-1)
    }

    /// Moves the active piece one column to the right, unless a wall or a
    /// filled cell is in the way, the game is paused, or it is over.
    pub fn move_right(&mut self)
        requires
            old(self).wf(),
        ensures
            final(self).wf(),
            final(self)@ == old(self)@.moved(1),
    {
        self.move_sideways(1)
    }

    /// Moves the active piece by one column, to the left or to the right.
    fn move_sideways(&mut self, dx: i32)
        requires
            old(self).wf(),
            dx == -1 || dx == 1,
        ensures
            final(self).wf(),
            final(self)@ == old(self)@.moved(dx as int),
    {
        if !self.playing || self.game_over {
            return ;
        }
        let candidate = self.shifted_piece(dx, 0);
        if !self.board.will_crash(&candidate) {
            proof {
                lemma_operations_keep_valid(self@, dx as int, self.next_kind, self.next_kind);
            }
            self.place(candidate);
        }
    }

    /// Turns the active piece a quarter about its second cell. Sideways
    /// corrections of 0, -1, +1, -2 and +2 columns are tried in this order
    /// and the first placement that does not collide is taken. Nothing
    /// changes if none fits, if the piece is an `O`, if the game is paused,
    /// or if it is over.
    pub fn rotate(&mut self)
        requires
            old(self).wf(),
        ensures
            final(self).wf(),
            final(self)@ == old(self)@.rotated(),
    {
        if !self.playing || self.game_over || self.active_kind == PieceKind::O {
            return ;
        }
        proof {
            lemma_operations_keep_valid(self@, 0, self.next_kind, self.next_kind);
        }
        let mut fit = self.try_turn(0);
        if fit.is_none() {
            fit = self.try_turn(-1);
        }
        if fit.is_none() {
            fit = self.try_turn(1);
        }
        if fit.is_none() {
            fit = self.try_turn(-2);
        }
        if fit.is_none() {
            fit = self.try_turn(2);
        }
        match fit {
            Some(cells) => {
                self.place(cells);
            },
            None => {},
        }
    }

    /// The sideways correction that the cells beside the pivot call for.
    fn correction(&self) -> (dx: Option<i32>)
        requires
            self.wf(),
        ensures
            dx is Some ==> -2 <= dx->0 <= 2,
            dx is Some <==> neighbour_correction(
                self@.grid,
                self@.active_kind,
                self@.active_cells[1],
            ) is Some,
            dx is Some ==> neighbour_correction(
                self@.grid,
                self@.active_kind,
                self@.active_cells[1],
            ) == Some(dx->0 as int),
    {
        proof {
            self.lemma_active_bounds();
            assert(cells_view(self.active_cells)[1] == (
                self.active_cells[1].0 as int,
                self.active_cells[1].1 as int,
            ));
        }
        let (x0, y0) = self.active_cells[1];
        let cols = self.board.cols() as i32;
        let far_left = x0 > 1 && !self.board.is_filled(y0, x0 - 2);
        let left = x0 > 0 && !self.board.is_filled(y0, x0 - 1);
        let right = x0 < cols - 1 && !self.board.is_filled(y0, x0 + 1);
        let far_right = x0 < cols - 2 && !self.board.is_filled(y0, x0 + 2);
        let long = self.active_kind == PieceKind::I;
        if long && !far_left && left && right && far_right {
            Some(1)
        } else if long && !left && right && far_right {
            Some(2)
        } else if long && far_left && left && !right {
            Some(-2)
        } else if long && left && right && !far_right {
            Some(-1)
        } else if !long && !left && right {
            Some(1)
        } else if !long && left && !right {
            Some(-1)
        } else if !left && !right {
            None
        } else {
            Some(0)
        }
    }

    /// Turns the active piece a quarter about its second cell, the other
    /// way of correcting: the one sideways correction that the four cells
    /// beside the pivot call for is tried, and no other. Nothing changes if
    /// these cells allow no turn, if the corrected placement collides, if
    /// the piece is an `O`, if the game is paused, or if it is over.
    ///
    /// [`Game::rotate`] is the rotation that commands are bound to. The two
    /// agree on an open board away from the walls, and differ where this
    /// one gives up after its single try.
    pub fn rotate_by_neighbours(&mut self)
        requires
            old(self).wf(),
        ensures
            final(self).wf(),
            final(self)@ == old(self)@.rotated_by_neighbours(),
    {
        if !self.playing || self.game_over || self.active_kind == PieceKind::O {
            return ;
        }
        proof {
            lemma_operations_keep_valid(self@, 0, self.next_kind, self.next_kind);
        }
        match self.correction() {
            Some(dx) => {
                match self.try_turn(dx) {
                    Some(cells) => {
                        self.place(cells);
                    },
                    None => {},
                }
            },
            None => {},
        }
    }

    /// Lands the active piece: merges it into the board, clears and scores
    /// the full rows, lets the next piece spawn and the upcoming one wait,
    /// and ends the game if a cell of the landed piece was above the board.
    fn fill_in(&mut self, upcoming: PieceKind)
        requires
            old(self).wf(),
        ensures
            final(self).wf(),
            final(self)@ == old(self)@.landed(upcoming),
    {
        proof {
            self.lemma_active_bounds();
            lemma_landed_valid(self@, upcoming);
            lemma_above_board_nonempty(self.active_cells);
            lemma_merged_well_formed(self@.grid, self@.active_cells);
            lemma_cleared_well_formed(merged(self@.grid, self@.active_cells));
        }
        let above = self.board.merge(&self.active_cells);
        let rows = self.board.clear_full_rows();
        let cols = self.board.cols();
        if above.len() > 0 {
            self.game_over = true;
        }
        self.active_kind = self.next_kind;
        self.active_cells = self.next_cells;
        self.next_kind = upcoming;
        self.next_cells = spawn(upcoming, cols);
        self.score = award(self.score, rows);
        self.level = derived_level(self.score);
        self.speed = derived_speed(self.level);
    }

    /// Takes one step down: the active piece goes down a row, or lands if
    /// it cannot. Returns whether it went down; `false` says that the piece
    /// has landed, or that the game is paused or over and nothing changed.
    /// `upcoming` is the piece that will wait after the next one, should
    /// this one land.
    pub fn move_down(&mut self, upcoming: PieceKind) -> (moved: bool)
        requires
            old(self).wf(),
        ensures
            final(self).wf(),
            final(self)@ == old(self)@.stepped(upcoming),
            moved == old(self)@.can_descend(),
    {
        if !self.playing || self.game_over {
            return false;
        }
        let candidate = self.shifted_piece(0, 1);
        if self.board.will_crash(&candidate) {
            self.fill_in(upcoming);
            false
        } else {
            proof {
                lemma_operations_keep_valid(self@, 0, upcoming, upcoming);
            }
            self.place(candidate);
            true
        }
    }

    /// Drops the active piece: steps down are taken until one does not move
    /// the piece down, so the piece lands where it would have landed step by
    /// step.
    pub fn drop_down(&mut self, upcoming: PieceKind)
        requires
            old(self).wf(),
        ensures
            final(self).wf(),
            final(self)@ == old(self)@.dropped(upcoming),
    {
        proof {
            self.lemma_active_bounds();
        }
        loop
            invariant_except_break
                self.wf(),
                self@.dropped(upcoming) == old(self)@.dropped(upcoming),
            ensures
                self.wf(),
                self@ == old(self)@.dropped(upcoming),
            decreases self@.headroom(),
        {
            let ghost before = self@;
            proof {
                if before.can_descend() {
                    lemma_descent_uses_headroom(before, upcoming);
                }
            }
            if !self.move_down(upcoming) {
                break ;
            }
        }
    }

    /// Pauses a running game and resumes a paused one. Board, pieces and
    /// score are not touched.
    pub fn pause_toggle(&mut self)
        requires
            old(self).wf(),
        ensures
            final(self).wf(),
            final(self)@ == old(self)@.toggled(),
    {
        self.playing = !self.playing;
    }

    /// Starts over: the board is emptied, two new pieces come, the score
    /// goes back to nothing and level and speed to their base values, and a
    /// game that was over is alive again. A paused game stays paused.
    pub fn restart(&mut self, first: PieceKind, second: PieceKind)
        requires
            old(self).wf(),
        ensures
            final(self).wf(),
            final(self)@ == old(self)@.restarted(first, second),
    {
        let rows = self.board.rows();
        let cols = self.board.cols();
        let playing = self.playing;
        *self = Game::new(rows, cols, first, second);
        self.playing = playing;
    }

    /// A copy of all that a renderer draws, as plain values.
    pub fn snapshot(&self) -> (shot: Snapshot)
        requires
            self.wf(),
        ensures
            rows_view(shot.rows@) == self@.grid,
            cells_view(shot.active_cells) == self@.active_cells,
            cells_view(shot.next_cells) == spawn_cells(self@.next_kind, grid_cols(self@.grid)),
            shot.active_kind == self@.active_kind,
            shot.next_kind == self@.next_kind,
            shot.score == self@.score,
            shot.level == self@.level,
            shot.speed == self@.speed,
            shot.playing == self@.playing,
            shot.game_over == self@.game_over,
    {
        Snapshot {
            rows: self.board.to_rows(),
            active_kind: self.active_kind,
            active_cells: self.active_cells,
            next_kind: self.next_kind,
            next_cells: self.next_cells,
            score: self.score,
            level: self.level,
            speed: self.speed,
            playing: self.playing,
            game_over: self.game_over,
        }
    }

    /// The board.
    pub fn board(&self) -> (board: &Board)
        requires
            self.wf(),
        ensures
            board.wf(),
            board@ == self@.grid,
    {
        &self.board
    }

    /// The number of rows of the board.
    pub fn rows(&self) -> (rows: usize)
        requires
            self.wf(),
        ensures
            rows == self@.grid.len(),
    {
        self.board.rows()
    }

    /// The number of columns of the board.
    pub fn cols(&self) -> (cols: usize)
        requires
            self.wf(),
        ensures
            cols == grid_cols(self@.grid),
    {
        self.board.cols()
    }

    /// The kind of the active piece.
    pub fn active_kind(&self) -> (kind: PieceKind)
        ensures
            kind == self@.active_kind,
    {
        self.active_kind
    }

    /// The four cells of the active piece. Those in rows below zero are
    /// above the board and not to be seen.
    pub fn active_cells(&self) -> (cells: Cells)
        ensures
            cells_view(cells) == self@.active_cells,
    {
        self.active_cells
    }

    /// The kind of the piece that comes next.
    pub fn next_kind(&self) -> (kind: PieceKind)
        ensures
            kind == self@.next_kind,
    {
        self.next_kind
    }

    /// The cells the next piece will spawn at.
    pub fn next_cells(&self) -> (cells: Cells)
        requires
            self.wf(),
        ensures
            cells_view(cells) == spawn_cells(self@.next_kind, grid_cols(self@.grid)),
    {
        self.next_cells
    }

    /// The score.
    pub fn score(&self) -> (score: u32)
        ensures
            score == self@.score,
    {
        self.score
    }

    /// The level reached.
    pub fn level(&self) -> (level: u32)
        ensures
            level == self@.level,
    {
        self.level
    }

    /// The least time between automatic descents, in milliseconds.
    pub fn speed(&self) -> (speed: u32)
        ensures
            speed == self@.speed,
    {
        self.speed
    }

    /// Whether the game is running, as opposed to paused.
    pub fn playing(&self) -> (playing: bool)
        ensures
            playing == self@.playing,
    {
        self.playing
    }

    /// Whether the game is over.
    pub fn game_over(&self) -> (over: bool)
        ensures
            over == self@.game_over,
    {
        self.game_over
    }
}

} // verus!
