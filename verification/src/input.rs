//! The input contract: the closed set of commands a player can give, the
//! keys they are bound to, and the way the clock drives the game.
//!
//! The engine knows commands only. Key names stop here.

use vstd::prelude::*;
use vstd::std_specs::iter::IteratorSpec;
use crate::game::{Game, GameView};
use crate::piece::PieceKind;

verus! {

/// What a player can ask of the game.
#[derive(Clone, Copy, Debug, PartialEq, Eq, Hash, Structural)]
pub enum Command {
    /// Turn the active piece a quarter.
    RotateCW,
    /// Move the active piece one column to the left.
    MoveLeft,
    /// Move the active piece one column to the right.
    MoveRight,
    /// Take one step down ahead of the clock.
    SoftDrop,
    /// Let the active piece fall until it lands.
    HardDrop,
    /// Pause a running game, resume a paused one.
    Pause,
    /// Start over.
    Restart,
}

/// The command a key is bound to, by the name of the key:
/// up, `w` or `i` turn; right, `d` or `l` move right; left, `a` or `j` move
/// left; down, `s` or `k` step down; `p` pauses; `r` restarts; space and
/// enter drop the piece while the game is alive and restart it once it is
/// over. Any other key is bound to nothing.
pub open spec fn binding(key: Seq<char>, game_over: bool) -> Option<Command> {
    if key == "ArrowUp"@ || key == "w"@ || key == "i"@ {
        Some(Command::RotateCW)
    } else if key == "ArrowRight"@ || key == "d"@ || key == "l"@ {
        Some(Command::MoveRight)
    } else if key == "ArrowLeft"@ || key == "a"@ || key == "j"@ {
        Some(Command::MoveLeft)
    } else if key == "ArrowDown"@ || key == "s"@ || key == "k"@ {
        Some(Command::SoftDrop)
    } else if key == " "@ || key == "Enter"@ {
        if game_over {
            Some(Command::Restart)
        } else {
            Some(Command::HardDrop)
        }
    } else if key == "p"@ {
        Some(Command::Pause)
    } else if key == "r"@ {
        Some(Command::Restart)
    } else {
        None
    }
}

impl GameView {
    /// The state after a command. `first` is the piece the game may have to
    /// draw, `second` the one after it: a landing takes the first, a restart
    /// takes both.
    pub open spec fn applied(self, command: Command, first: PieceKind, second: PieceKind) -> GameView {
        match command {
            Command::RotateCW => self.rotated(),
            Command::MoveLeft => self.moved(-1),
            Command::MoveRight => self.moved(1),
            Command::SoftDrop => self.stepped(first),
            Command::HardDrop => self.dropped(first),
            Command::Pause => self.toggled(),
            Command::Restart => self.restarted(first, second),
        }
    }

    /// The state after the clock has run for `elapsed` milliseconds since
    /// the last automatic descent: a step down is taken if that is more than
    /// the speed of the game; a paused or finished game does not move.
    pub open spec fn ticked(self, elapsed: nat, upcoming: PieceKind) -> GameView {
        if elapsed > self.speed {
            self.stepped(upcoming)
        } else {
            self
        }
    }
}

/// Whether two texts hold the same characters.
fn same_text(key: &str, name: &str) -> (same: bool)
    ensures
        same == (key@ == name@),
{
    let mut left = key.chars();
    let mut right = name.chars();
    let ghost mut n: int = 0;
    loop
        invariant
            0 <= n <= key@.len(),
            n <= name@.len(),
            key@.take(n) == name@.take(n),
            left.remaining() == key@.skip(n),
            right.remaining() == name@.skip(n),
        decreases key@.len() - n,
    {
        let a = left.next();
        let b = right.next();
        match (a, b) {
            (None, None) => {
                assert(key@.take(n) =~= key@);
                assert(name@.take(n) =~= name@);
                return true;
            },
            (Some(x), Some(y)) => {
                if x != y {
                    return false;
                }
                proof {
                    n = n + 1;
                }
            },
            _ => {
                return false;
            },
        }
    }
}

/// The command a key is bound to, if any. `key` is the name of the key as
/// the host reports it; `game_over` tells whether the game is over, which
/// decides what space and enter do.
pub fn command_for_key(key: &str, game_over: bool) -> (command: Option<Command>)
    ensures
        command == binding(key@, game_over),
{
    if same_text(key, "ArrowUp") || same_text(key, "w") || same_text(key, "i") {
        Some(Command::RotateCW)
    } else if same_text(key, "ArrowRight") || same_text(key, "d") || same_text(key, "l") {
        Some(Command::MoveRight)
    } else if same_text(key, "ArrowLeft") || same_text(key, "a") || same_text(key, "j") {
        Some(Command::MoveLeft)
    } else if same_text(key, "ArrowDown") || same_text(key, "s") || same_text(key, "k") {
        Some(Command::SoftDrop)
    } else if same_text(key, " ") || same_text(key, "Enter") {
        if game_over {
            Some(Command::Restart)
        } else {
            Some(Command::HardDrop)
        }
    } else if same_text(key, "p") {
        Some(Command::Pause)
    } else if same_text(key, "r") {
        Some(Command::Restart)
    } else {
        None
    }
}

impl Game {
    /// Carries out a command. `first` and `second` are freshly drawn
    /// pieces: a landing takes the first, a restart takes both, and a
    /// command that needs none leaves them unused.
    pub fn apply(&mut self, command: Command, first: PieceKind, second: PieceKind)
        requires
            old(self).wf(),
        ensures
            final(self).wf(),
            final(self)@ == old(self)@.applied(command, first, second),
    {
        match command {
            Command::RotateCW => self.rotate(),
            Command::MoveLeft => self.move_left(),
            Command::MoveRight => self.move_right(),
            Command::SoftDrop => {
                self.move_down(first);
            },
            Command::HardDrop => self.drop_down(first),
            Command::Pause => self.pause_toggle(),
            Command::Restart => self.restart(first, second),
        }
    }

    /// Lets the clock drive the game. `elapsed_ms` is the time since the
    /// last automatic descent. If it is more than the speed of the game, a
    /// step down is taken and `true` is returned, so that the caller starts
    /// counting anew; a paused or finished game does not move then either.
    pub fn tick(&mut self, elapsed_ms: u64, upcoming: PieceKind) -> (due: bool)
        requires
            old(self).wf(),
        ensures
            final(self).wf(),
            due == (elapsed_ms > old(self)@.speed),
            final(self)@ == old(self)@.ticked(elapsed_ms as nat, upcoming),
    {
        if elapsed_ms > self.speed() as u64 {
            self.move_down(upcoming);
            true
        } else {
            false
        }
    }
}

/// A command leads from a valid state to a valid state, and so does the
/// clock.
pub proof fn lemma_input_keeps_valid(
    state: GameView,
    command: Command,
    elapsed: nat,
    first: PieceKind,
    second: PieceKind,
)
    requires
        state.valid(),
    ensures
        state.applied(command, first, second).valid(),
        state.ticked(elapsed, first).valid(),
{
    crate::game::lemma_operations_keep_valid(state, -1, first, second);
    crate::game::lemma_operations_keep_valid(state, 1, first, second);
    crate::game::lemma_dropped_valid(state, first);
}

/// Once the game is over, no command but a restart changes board, piece or
/// score, and the clock changes nothing.
pub proof fn lemma_game_over_freezes(
    state: GameView,
    command: Command,
    elapsed: nat,
    first: PieceKind,
    second: PieceKind,
)
    requires
        state.game_over,
        state.active_cells.len() > 0,
        command != Command::Restart,
    ensures
        state.ticked(elapsed, first) == state,
        command != Command::Pause ==> state.applied(command, first, second) == state,
        state.applied(command, first, second) == (GameView {
            playing: state.applied(command, first, second).playing,
            ..state
        }),
{
    crate::game::lemma_frozen_without_moves(state, -1, first);
    crate::game::lemma_frozen_without_moves(state, 1, first);
}

} // verus!
