use tetris::game::Game;
use tetris::input::{command_for_key, Command};
use tetris::piece::PieceKind;

#[test]
fn keys_are_bound_to_commands() {
    for key in ["ArrowUp", "w", "i"] {
        assert_eq!(command_for_key(key, false), Some(Command::RotateCW));
    }
    for key in ["ArrowRight", "d", "l"] {
        assert_eq!(command_for_key(key, false), Some(Command::MoveRight));
    }
    for key in ["ArrowLeft", "a", "j"] {
        assert_eq!(command_for_key(key, false), Some(Command::MoveLeft));
    }
    for key in ["ArrowDown", "s", "k"] {
        assert_eq!(command_for_key(key, false), Some(Command::SoftDrop));
    }
    assert_eq!(command_for_key("p", false), Some(Command::Pause));
    assert_eq!(command_for_key("r", false), Some(Command::Restart));
    assert_eq!(command_for_key(" ", false), Some(Command::HardDrop));
    assert_eq!(command_for_key("Enter", false), Some(Command::HardDrop));
}

#[test]
fn space_and_enter_restart_a_finished_game() {
    assert_eq!(command_for_key(" ", true), Some(Command::Restart));
    assert_eq!(command_for_key("Enter", true), Some(Command::Restart));
    assert_eq!(command_for_key("r", true), Some(Command::Restart));
    assert_eq!(command_for_key("p", true), Some(Command::Pause));
    assert_eq!(command_for_key("ArrowUp", true), Some(Command::RotateCW));
    assert_eq!(command_for_key("a", true), Some(Command::MoveLeft));
}

#[test]
fn other_keys_are_bound_to_nothing() {
    let unbound = [
        "", "W", "arrowup", "ArrowUp ", "Arrow", "ArrowUpp", "ArrowU", "x", "Escape", "  ", "enter",
        "Ente", "Enterr", "P", "é", "ww", "rr", "pé",
    ];
    for key in unbound {
        assert_eq!(command_for_key(key, false), None, "{:?}", key);
        assert_eq!(command_for_key(key, true), None, "{:?}", key);
    }
}

#[test]
fn apply_carries_out_each_command() {
    let mut game = Game::new(12, 10, PieceKind::T, PieceKind::I);
    game.apply(Command::Pause, PieceKind::O, PieceKind::O);
    assert!(game.playing());
    game.apply(Command::MoveLeft, PieceKind::O, PieceKind::O);
    assert_eq!(game.active_cells(), [(3, -2), (4, -2), (5, -2), (4, -1)]);
    game.apply(Command::MoveRight, PieceKind::O, PieceKind::O);
    assert_eq!(game.active_cells(), [(4, -2), (5, -2), (6, -2), (5, -1)]);
    game.apply(Command::SoftDrop, PieceKind::O, PieceKind::O);
    assert_eq!(game.active_cells(), [(4, -1), (5, -1), (6, -1), (5, 0)]);
    game.apply(Command::RotateCW, PieceKind::O, PieceKind::O);
    assert_eq!(game.active_cells(), [(5, -2), (5, -1), (5, 0), (4, -1)]);
    game.apply(Command::HardDrop, PieceKind::Z, PieceKind::O);
    assert_eq!(game.active_kind(), PieceKind::I);
    assert_eq!(game.next_kind(), PieceKind::Z);
    assert!(game.board().is_filled(11, 5));
    assert!(game.board().is_filled(10, 5));
    assert!(game.board().is_filled(9, 5));
    assert!(game.board().is_filled(10, 4));
    game.apply(Command::Restart, PieceKind::S, PieceKind::J);
    let mut fresh = Game::new(12, 10, PieceKind::S, PieceKind::J);
    fresh.pause_toggle();
    assert_eq!(game.snapshot(), fresh.snapshot());
    game.apply(Command::Pause, PieceKind::O, PieceKind::O);
    assert!(!game.playing());
}

#[test]
fn apply_matches_the_operations() {
    let commands = [
        Command::RotateCW,
        Command::MoveLeft,
        Command::MoveRight,
        Command::SoftDrop,
        Command::HardDrop,
        Command::Pause,
        Command::Restart,
    ];
    for command in commands {
        let mut by_command = Game::new(6, 10, PieceKind::L, PieceKind::S);
        let mut by_call = Game::new(6, 10, PieceKind::L, PieceKind::S);
        by_command.pause_toggle();
        by_call.pause_toggle();
        by_command.move_down(PieceKind::O);
        by_call.move_down(PieceKind::O);
        by_command.apply(command, PieceKind::T, PieceKind::Z);
        match command {
            Command::RotateCW => by_call.rotate(),
            Command::MoveLeft => by_call.move_left(),
            Command::MoveRight => by_call.move_right(),
            Command::SoftDrop => {
                by_call.move_down(PieceKind::T);
            }
            Command::HardDrop => by_call.drop_down(PieceKind::T),
            Command::Pause => by_call.pause_toggle(),
            Command::Restart => by_call.restart(PieceKind::T, PieceKind::Z),
        }
        assert_eq!(by_command.snapshot(), by_call.snapshot());
    }
}

#[test]
fn tick_steps_down_once_the_interval_has_passed() {
    let mut game = Game::new(12, 10, PieceKind::T, PieceKind::I);
    game.pause_toggle();
    assert!(!game.tick(0, PieceKind::O));
    assert!(!game.tick(299, PieceKind::O));
    assert!(!game.tick(300, PieceKind::O));
    assert_eq!(game.active_cells(), [(4, -2), (5, -2), (6, -2), (5, -1)]);
    assert!(game.tick(301, PieceKind::O));
    assert_eq!(game.active_cells(), [(4, -1), (5, -1), (6, -1), (5, 0)]);
    assert!(game.tick(u64::MAX, PieceKind::O));
    assert_eq!(game.active_cells(), [(4, 0), (5, 0), (6, 0), (5, 1)]);
}

#[test]
fn tick_does_not_move_a_paused_or_finished_game() {
    let mut game = Game::new(3, 10, PieceKind::I, PieceKind::I);
    let before = game.snapshot();
    assert!(game.tick(1_000, PieceKind::O));
    assert_eq!(game.snapshot(), before);
    game.pause_toggle();
    while !game.game_over() {
        assert!(game.tick(1_000, PieceKind::I));
    }
    let frozen = game.snapshot();
    assert!(game.tick(1_000, PieceKind::O));
    assert!(!game.tick(10, PieceKind::O));
    assert_eq!(game.snapshot(), frozen);
}
