use tetris::board::{Board, Cell};
use tetris::game::{Game, MIN_COLS};
use tetris::piece::{spawn, Cells, PieceKind};

const KINDS: [PieceKind; 7] = [
    PieceKind::I,
    PieceKind::J,
    PieceKind::L,
    PieceKind::O,
    PieceKind::S,
    PieceKind::T,
    PieceKind::Z,
];

fn seeded(rows: &[&str]) -> Board {
    let mut board = Board::new(rows.len(), rows[0].len());
    for (r, row) in rows.iter().enumerate() {
        for (c, mark) in row.chars().enumerate() {
            if mark == '#' {
                board.set(r, c, Cell::Filled);
            }
        }
    }
    board
}

fn picture(game: &Game) -> Vec<String> {
    game.board()
        .to_rows()
        .iter()
        .map(|row| {
            row.iter()
                .map(|cell| if *cell == Cell::Filled { '#' } else { '.' })
                .collect::<String>()
        })
        .collect()
}

fn running(rows: usize, cols: usize, first: PieceKind, second: PieceKind) -> Game {
    let mut game = Game::new(rows, cols, first, second);
    game.pause_toggle();
    game
}

fn running_on(board: Board, first: PieceKind, second: PieceKind) -> Game {
    let mut game = Game::with_board(board, first, second);
    game.pause_toggle();
    game
}

fn in_bounds_and_free(game: &Game) -> bool {
    let cells = game.active_cells();
    cells.iter().all(|&(x, y)| {
        x >= 0
            && (x as usize) < game.cols()
            && y < game.rows() as i32
            && (y < 0 || game.board().cell(y as usize, x as usize) == Cell::Empty)
    })
}

fn same_shape(cells: &Cells, kind: PieceKind) -> bool {
    let base = spawn(kind, 10);
    let mut shape: Vec<(i32, i32)> = base.iter().map(|c| (c.0 - base[0].0, c.1 - base[0].1)).collect();
    for _ in 0..4 {
        let rel: Vec<(i32, i32)> = cells.iter().map(|c| (c.0 - cells[0].0, c.1 - cells[0].1)).collect();
        if rel == shape {
            return true;
        }
        let turned: Vec<(i32, i32)> = shape.iter().map(|c| (-c.1, c.0)).collect();
        shape = turned.iter().map(|c| (c.0 - turned[0].0, c.1 - turned[0].1)).collect();
    }
    false
}

#[test]
fn new_game_starts_paused_with_a_piece_above_the_board() {
    let game = Game::new(12, 10, PieceKind::T, PieceKind::I);
    assert_eq!(game.rows(), 12);
    assert_eq!(game.cols(), 10);
    assert_eq!(game.active_kind(), PieceKind::T);
    assert_eq!(game.active_cells(), [(4, -2), (5, -2), (6, -2), (5, -1)]);
    assert_eq!(game.next_kind(), PieceKind::I);
    assert_eq!(game.next_cells(), [(4, -4), (4, -3), (4, -2), (4, -1)]);
    assert_eq!(game.score(), 0);
    assert_eq!(game.level(), 1);
    assert_eq!(game.speed(), 300);
    assert!(!game.playing());
    assert!(!game.game_over());
    assert_eq!(picture(&game), vec![".........."; 12]);
}

#[test]
fn narrowest_board_holds_every_spawning_piece() {
    assert_eq!(MIN_COLS, 3);
    for kind in KINDS {
        let game = Game::new(1, MIN_COLS, kind, kind);
        assert!(in_bounds_and_free(&game));
        assert!(game.active_cells().iter().all(|c| c.1 < 0));
    }
}

#[test]
fn paused_game_ignores_moves() {
    let mut game = Game::new(12, 10, PieceKind::T, PieceKind::I);
    let before = game.snapshot();
    game.move_left();
    game.move_right();
    game.rotate();
    game.rotate_by_neighbours();
    assert!(!game.move_down(PieceKind::Z));
    game.drop_down(PieceKind::Z);
    assert_eq!(game.snapshot(), before);
}

#[test]
fn pause_toggle_twice_restores_the_state() {
    let mut game = running(12, 10, PieceKind::S, PieceKind::L);
    game.move_down(PieceKind::O);
    game.move_left();
    let before = game.snapshot();
    game.pause_toggle();
    assert!(!game.playing());
    let mut paused = before.clone();
    paused.playing = false;
    assert_eq!(game.snapshot(), paused);
    game.pause_toggle();
    assert_eq!(game.snapshot(), before);
}

#[test]
fn moves_shift_the_piece_by_one_column() {
    let mut game = running(12, 10, PieceKind::T, PieceKind::I);
    game.move_left();
    assert_eq!(game.active_cells(), [(3, -2), (4, -2), (5, -2), (4, -1)]);
    game.move_right();
    game.move_right();
    assert_eq!(game.active_cells(), [(5, -2), (6, -2), (7, -2), (6, -1)]);
    assert!(game.move_down(PieceKind::O));
    assert_eq!(game.active_cells(), [(5, -1), (6, -1), (7, -1), (6, 0)]);
}

#[test]
fn move_left_at_the_left_wall_is_a_no_op() {
    let mut game = running(12, 10, PieceKind::T, PieceKind::I);
    for _ in 0..4 {
        game.move_left();
    }
    assert_eq!(game.active_cells(), [(0, -2), (1, -2), (2, -2), (1, -1)]);
    let before = game.snapshot();
    game.move_left();
    assert_eq!(game.snapshot(), before);
    game.move_left();
    assert_eq!(game.snapshot(), before);
}

#[test]
fn move_right_at_the_right_wall_is_a_no_op() {
    let mut game = running(12, 10, PieceKind::T, PieceKind::I);
    for _ in 0..3 {
        game.move_right();
    }
    assert_eq!(game.active_cells(), [(7, -2), (8, -2), (9, -2), (8, -1)]);
    let before = game.snapshot();
    game.move_right();
    assert_eq!(game.snapshot(), before);
}

#[test]
fn move_into_a_filled_cell_is_a_no_op() {
    let board = seeded(&["..........", "...#......", "..........", ".........."]);
    let mut game = running_on(board, PieceKind::O, PieceKind::I);
    for _ in 0..3 {
        assert!(game.move_down(PieceKind::T));
    }
    assert_eq!(game.active_cells(), [(4, 1), (5, 1), (4, 2), (5, 2)]);
    let before = game.snapshot();
    game.move_left();
    assert_eq!(game.snapshot(), before);
    game.move_right();
    assert_eq!(game.active_cells(), [(5, 1), (6, 1), (5, 2), (6, 2)]);
}

#[test]
fn rotate_turns_about_the_second_cell() {
    let mut game = running(12, 10, PieceKind::T, PieceKind::I);
    game.rotate();
    assert_eq!(game.active_cells(), [(5, -3), (5, -2), (5, -1), (4, -2)]);
    game.rotate();
    assert_eq!(game.active_cells(), [(6, -2), (5, -2), (4, -2), (5, -3)]);
    game.rotate();
    assert_eq!(game.active_cells(), [(5, -1), (5, -2), (5, -3), (6, -2)]);
    game.rotate();
    assert_eq!(game.active_cells(), [(4, -2), (5, -2), (6, -2), (5, -1)]);
}

#[test]
fn rotate_on_an_o_piece_never_changes_it() {
    let boards = [
        seeded(&["..........", "..........", "..........", ".........."]),
        seeded(&["..........", "...#..#...", "...#..#...", "####..####"]),
    ];
    for board in boards {
        let mut game = running_on(board, PieceKind::O, PieceKind::O);
        loop {
            let before = game.snapshot();
            game.rotate();
            assert_eq!(game.snapshot(), before);
            game.rotate_by_neighbours();
            assert_eq!(game.snapshot(), before);
            game.move_left();
            game.rotate();
            game.move_right();
            assert_eq!(game.snapshot(), before);
            if !game.move_down(PieceKind::O) {
                break;
            }
        }
    }
}

#[test]
fn rotate_kicks_off_the_left_wall() {
    let mut game = running(12, 10, PieceKind::I, PieceKind::O);
    for _ in 0..4 {
        game.move_left();
    }
    assert_eq!(game.active_cells(), [(0, -4), (0, -3), (0, -2), (0, -1)]);
    game.rotate();
    assert_eq!(game.active_cells(), [(3, -3), (2, -3), (1, -3), (0, -3)]);
}

#[test]
fn rotate_kicks_off_the_right_wall() {
    let mut game = running(12, 10, PieceKind::I, PieceKind::O);
    for _ in 0..5 {
        game.move_right();
    }
    assert_eq!(game.active_cells(), [(9, -4), (9, -3), (9, -2), (9, -1)]);
    game.rotate();
    assert_eq!(game.active_cells(), [(9, -3), (8, -3), (7, -3), (6, -3)]);
}

#[test]
fn rotate_prefers_the_correction_to_the_left() {
    // Flat T with pivot (5, 1) and a block right above the pivot: without a
    // correction the turned piece collides; one column to the left and one
    // to the right both fit, and the left one comes first.
    let board = seeded(&[".....#....", "..........", "..........", ".........."]);
    let mut game = running_on(board, PieceKind::T, PieceKind::O);
    game.move_right();
    game.move_right();
    for _ in 0..3 {
        assert!(game.move_down(PieceKind::O));
    }
    game.move_left();
    game.move_left();
    assert_eq!(game.active_cells(), [(4, 1), (5, 1), (6, 1), (5, 2)]);
    game.rotate();
    assert_eq!(game.active_cells(), [(4, 0), (4, 1), (4, 2), (3, 1)]);
}

#[test]
fn rotate_is_rejected_when_no_correction_fits() {
    // An upright I in a shaft one cell wide.
    let board = seeded(&["####.#####", "####.#####", "####.#####", "####.#####", "####.#####"]);
    let mut game = running_on(board, PieceKind::I, PieceKind::O);
    for _ in 0..5 {
        assert!(game.move_down(PieceKind::O));
    }
    assert_eq!(game.active_cells(), [(4, 1), (4, 2), (4, 3), (4, 4)]);
    let before = game.snapshot();
    game.rotate();
    assert_eq!(game.snapshot(), before);
    game.rotate_by_neighbours();
    assert_eq!(game.snapshot(), before);
}

#[test]
fn rotate_takes_the_first_correction_that_fits() {
    // Flat T with pivot (5, 1) and blocks above the pivot and above its left
    // neighbour: no correction and one column to the left collide, one
    // column to the right fits.
    let board = seeded(&["....##....", "..........", "..........", ".........."]);
    let mut game = running_on(board, PieceKind::T, PieceKind::O);
    game.move_right();
    game.move_right();
    for _ in 0..3 {
        assert!(game.move_down(PieceKind::O));
    }
    game.move_left();
    game.move_left();
    assert_eq!(game.active_cells(), [(4, 1), (5, 1), (6, 1), (5, 2)]);
    game.rotate();
    assert_eq!(game.active_cells(), [(6, 0), (6, 1), (6, 2), (5, 1)]);
}

#[test]
fn both_rotations_agree_away_from_walls_on_an_empty_board() {
    for kind in KINDS {
        for shift in -2i32..=1 {
            for turns in 0..4 {
                let mut one = running(20, 10, kind, kind);
                let mut two = running(20, 10, kind, kind);
                for game in [&mut one, &mut two] {
                    for _ in 0..6 {
                        assert!(game.move_down(kind));
                    }
                    for _ in 0..shift.abs() {
                        if shift < 0 {
                            game.move_left();
                        } else {
                            game.move_right();
                        }
                    }
                    for _ in 0..turns {
                        game.rotate();
                    }
                }
                assert_eq!(one.snapshot(), two.snapshot());
                let pivot = one.active_cells()[1];
                assert!(2 <= pivot.0 && pivot.0 <= 7);
                one.rotate();
                two.rotate_by_neighbours();
                assert_eq!(one.snapshot(), two.snapshot());
                assert!(same_shape(&one.active_cells(), kind));
            }
        }
    }
}

#[test]
fn the_rotations_differ_for_an_i_at_the_right_wall() {
    let mut one = running(12, 10, PieceKind::I, PieceKind::O);
    let mut two = running(12, 10, PieceKind::I, PieceKind::O);
    for _ in 0..5 {
        one.move_right();
        two.move_right();
    }
    one.rotate();
    two.rotate_by_neighbours();
    assert_eq!(one.active_cells(), [(9, -3), (8, -3), (7, -3), (6, -3)]);
    assert_eq!(two.active_cells(), [(8, -3), (7, -3), (6, -3), (5, -3)]);
}

#[test]
fn the_rotations_agree_for_an_i_at_the_left_wall() {
    let mut one = running(12, 10, PieceKind::I, PieceKind::O);
    let mut two = running(12, 10, PieceKind::I, PieceKind::O);
    for _ in 0..4 {
        one.move_left();
        two.move_left();
    }
    one.rotate();
    two.rotate_by_neighbours();
    assert_eq!(one.active_cells(), [(3, -3), (2, -3), (1, -3), (0, -3)]);
    assert_eq!(one.snapshot(), two.snapshot());
}

#[test]
fn rotations_near_both_walls_keep_the_piece_whole_and_free() {
    for kind in KINDS {
        for by_neighbours in [false, true] {
            for to_right in [false, true] {
                for turns in 0..4 {
                    let mut game = running(12, 10, kind, kind);
                    for _ in 0..5 {
                        game.move_down(kind);
                    }
                    for _ in 0..turns {
                        game.rotate();
                    }
                    for _ in 0..10 {
                        if to_right {
                            game.move_right();
                        } else {
                            game.move_left();
                        }
                    }
                    let pivot_row = game.active_cells()[1].1;
                    if by_neighbours {
                        game.rotate_by_neighbours();
                    } else {
                        game.rotate();
                    }
                    assert!(in_bounds_and_free(&game));
                    assert!(same_shape(&game.active_cells(), kind));
                    assert_eq!(game.active_cells()[1].1, pivot_row);
                }
            }
        }
    }
}

#[test]
fn move_down_lands_the_piece_on_the_floor() {
    let mut game = running(4, 10, PieceKind::O, PieceKind::T);
    for _ in 0..4 {
        assert!(game.move_down(PieceKind::I));
    }
    assert_eq!(game.active_cells(), [(4, 2), (5, 2), (4, 3), (5, 3)]);
    assert!(!game.move_down(PieceKind::I));
    assert_eq!(
        picture(&game),
        vec!["..........", "..........", "....##....", "....##...."]
    );
    assert_eq!(game.active_kind(), PieceKind::T);
    assert_eq!(game.active_cells(), [(4, -2), (5, -2), (6, -2), (5, -1)]);
    assert_eq!(game.next_kind(), PieceKind::I);
    assert_eq!(game.next_cells(), [(4, -4), (4, -3), (4, -2), (4, -1)]);
    assert_eq!(game.score(), 0);
    assert!(!game.game_over());
    assert!(game.playing());
}

#[test]
fn landing_on_one_full_row_scores_a_hundred() {
    let board = seeded(&[
        "..........",
        "#.........",
        ".#........",
        "####......",
        "##########",
    ]);
    let mut game = running_on(board, PieceKind::O, PieceKind::T);
    game.drop_down(PieceKind::I);
    assert_eq!(
        picture(&game),
        vec![
            "..........",
            "..........",
            "#.........",
            ".#..##....",
            "######....",
        ]
    );
    assert_eq!(game.score(), 100);
    assert_eq!(game.level(), 1);
    assert_eq!(game.speed(), 300);
    assert!(!game.game_over());
    assert_eq!(game.active_kind(), PieceKind::T);
    assert_eq!(game.next_kind(), PieceKind::I);
}

#[test]
fn clearing_rows_scores_by_doubling() {
    // An upright I dropped down the open first column.
    let mut one = running_on(seeded(&["....", "....", "....", ".###"]), PieceKind::I, PieceKind::O);
    one.move_left();
    one.drop_down(PieceKind::O);
    assert_eq!(one.score(), 100);
    assert_eq!(picture(&one), vec!["....", "#...", "#...", "#..."]);

    let mut two = running_on(seeded(&["....", "....", ".###", ".###"]), PieceKind::I, PieceKind::O);
    two.move_left();
    two.drop_down(PieceKind::O);
    assert_eq!(two.score(), 200);
    assert_eq!(picture(&two), vec!["....", "....", "#...", "#..."]);

    let mut three = running_on(seeded(&["....", ".###", ".###", ".###"]), PieceKind::I, PieceKind::O);
    three.move_left();
    three.drop_down(PieceKind::O);
    assert_eq!(three.score(), 400);
    assert_eq!(picture(&three), vec!["....", "....", "....", "#..."]);

    let mut four = running_on(seeded(&[".###", ".###", ".###", ".###"]), PieceKind::I, PieceKind::O);
    four.move_left();
    four.drop_down(PieceKind::O);
    assert_eq!(four.score(), 800);
    assert_eq!(picture(&four), vec!["....", "....", "....", "...."]);
    assert!(!four.game_over());
}

#[test]
fn level_and_speed_follow_the_score() {
    let mut game = running(4, 4, PieceKind::I, PieceKind::I);
    let mut expected = 0u32;
    let thresholds = [(1_000u32, 1u32, 300u32), (3_000, 2, 200), (5_000, 3, 100), (7_000, 4, 50)];
    for round in 0..10 {
        // Four upright I pieces side by side clear four rows at once.
        for column in 0..4 {
            for _ in 0..2 {
                game.move_left();
            }
            for _ in 0..column {
                game.move_right();
            }
            game.drop_down(PieceKind::I);
        }
        expected += 800;
        assert_eq!(game.score(), expected, "round {}", round);
        let mut level = 5;
        let mut speed = 20;
        for (limit, l, s) in thresholds {
            if expected <= limit {
                level = l;
                speed = s;
                break;
            }
        }
        assert_eq!(game.level(), level);
        assert_eq!(game.speed(), speed);
        assert_eq!(picture(&game), vec!["...."; 4]);
    }
    assert_eq!(game.score(), 8_000);
    assert_eq!(game.level(), 5);
    assert_eq!(game.speed(), 20);
}

#[test]
fn a_piece_that_cannot_enter_the_board_ends_the_game() {
    let board = seeded(&["....##....", "..........", "..........", "........##"]);
    let mut game = running_on(board, PieceKind::O, PieceKind::T);
    assert_eq!(game.active_cells(), [(4, -2), (5, -2), (4, -1), (5, -1)]);
    assert!(!game.move_down(PieceKind::I));
    assert!(game.game_over());
    assert_eq!(
        picture(&game),
        vec!["....##....", "..........", "..........", "........##"]
    );
    assert_eq!(game.score(), 0);
    assert_eq!(game.active_kind(), PieceKind::T);
    assert_eq!(game.next_kind(), PieceKind::I);

    let frozen = game.snapshot();
    for kind in KINDS {
        assert!(!game.move_down(kind));
        game.drop_down(kind);
        game.move_left();
        game.move_right();
        game.rotate();
        game.rotate_by_neighbours();
        assert_eq!(game.snapshot(), frozen);
    }

    game.restart(PieceKind::S, PieceKind::Z);
    assert!(!game.game_over());
    assert!(game.move_down(PieceKind::I));
}

#[test]
fn a_piece_landing_half_above_the_board_ends_the_game() {
    let board = seeded(&["..........", "....#.....", ".........."]);
    let mut game = running_on(board, PieceKind::I, PieceKind::T);
    game.drop_down(PieceKind::O);
    assert!(game.game_over());
    assert_eq!(picture(&game), vec!["....#.....", "....#.....", ".........."]);
    assert_eq!(game.score(), 0);
}

#[test]
fn a_landing_above_the_board_still_clears_full_rows() {
    let board = seeded(&["####.#####", "####.#####"]);
    let mut game = running_on(board, PieceKind::I, PieceKind::T);
    game.drop_down(PieceKind::O);
    assert!(game.game_over());
    assert_eq!(picture(&game), vec!["..........", ".........."]);
    assert_eq!(game.score(), 200);
}

#[test]
fn drop_down_equals_repeated_move_down() {
    let boards: [&[&str]; 3] = [
        &["..........", "..........", "..........", "..........", "..........", ".........."],
        &["..........", "..........", "..........", "....#.....", "###.######", "###.######"],
        &["...##.....", "..........", "..........", "..........", "..........", ".........."],
    ];
    for rows in boards {
        for first in KINDS {
            for upcoming in KINDS {
                for shift in -1i32..=1 {
                    let mut dropped = running_on(seeded(rows), first, PieceKind::L);
                    let mut stepped = running_on(seeded(rows), first, PieceKind::L);
                    for game in [&mut dropped, &mut stepped] {
                        if shift < 0 {
                            game.move_left();
                        } else if shift > 0 {
                            game.move_right();
                        }
                    }
                    dropped.drop_down(upcoming);
                    let mut steps = 0;
                    while stepped.move_down(upcoming) {
                        steps += 1;
                    }
                    assert!(steps <= rows.len() + 4);
                    assert_eq!(dropped.snapshot(), stepped.snapshot());
                    assert_eq!(dropped.next_kind(), upcoming);
                    assert_eq!(dropped.active_kind(), PieceKind::L);
                }
            }
        }
    }
}

#[test]
fn restart_gives_a_fresh_game() {
    let board = seeded(&["..........", "..........", "###.######", "###.######"]);
    let mut game = running_on(board, PieceKind::I, PieceKind::I);
    game.move_left();
    game.drop_down(PieceKind::O);
    assert_eq!(game.score(), 200);
    game.restart(PieceKind::Z, PieceKind::J);
    let mut fresh = Game::new(4, 10, PieceKind::Z, PieceKind::J);
    fresh.pause_toggle();
    assert_eq!(game.snapshot(), fresh.snapshot());
    assert_eq!(game.score(), 0);
    assert_eq!(game.level(), 1);
    assert_eq!(game.speed(), 300);
    assert!(game.playing());
    assert_eq!(game.active_cells(), [(4, -2), (5, -2), (5, -1), (6, -1)]);
    assert_eq!(game.next_cells(), [(5, -3), (5, -2), (5, -1), (4, -1)]);
}

#[test]
fn restart_keeps_a_paused_game_paused() {
    let mut game = Game::new(4, 10, PieceKind::I, PieceKind::I);
    game.restart(PieceKind::Z, PieceKind::J);
    assert!(!game.playing());
    assert_eq!(game.snapshot(), Game::new(4, 10, PieceKind::Z, PieceKind::J).snapshot());
}

#[test]
fn snapshot_copies_the_state() {
    let board = seeded(&["...", "#..", ".##"]);
    let mut game = running_on(board, PieceKind::J, PieceKind::S);
    game.move_down(PieceKind::O);
    let shot = game.snapshot();
    assert_eq!(
        shot.rows,
        vec![
            vec![Cell::Empty, Cell::Empty, Cell::Empty],
            vec![Cell::Filled, Cell::Empty, Cell::Empty],
            vec![Cell::Empty, Cell::Filled, Cell::Filled],
        ]
    );
    assert_eq!(shot.active_kind, PieceKind::J);
    assert_eq!(shot.active_cells, [(1, -2), (1, -1), (1, 0), (0, 0)]);
    assert_eq!(shot.next_kind, PieceKind::S);
    assert_eq!(shot.next_cells, [(2, -2), (1, -2), (1, -1), (0, -1)]);
    assert_eq!(shot.score, 0);
    assert_eq!(shot.level, 1);
    assert_eq!(shot.speed, 300);
    assert!(shot.playing);
    assert!(!shot.game_over);
    assert!(game.will_crash(&[(0, 1), (1, 1), (0, 2), (1, 2)]));
    assert!(!game.will_crash(&[(1, 0), (2, 0), (1, 1), (2, 1)]));
}

#[test]
fn every_state_of_a_long_game_is_valid() {
    let mut game = running(12, 10, PieceKind::T, PieceKind::S);
    let mut seed: u32 = 12345;
    let mut draw = move || {
        seed = seed.wrapping_mul(1_103_515_245).wrapping_add(12_345);
        ((seed >> 16) % 7) as usize
    };
    let mut locked = 0;
    for _ in 0..20_000 {
        let kind = PieceKind::from_index(draw()).unwrap();
        let before = game.score();
        match draw() {
            0 => game.move_left(),
            1 => game.move_right(),
            2 => game.rotate(),
            3 => game.rotate_by_neighbours(),
            4 => game.drop_down(kind),
            _ => {
                if !game.move_down(kind) {
                    locked += 1;
                }
            }
        }
        assert!(in_bounds_and_free(&game));
        assert!(same_shape(&game.active_cells(), game.active_kind()));
        assert!(game.score() >= before);
        if game.game_over() {
            game.restart(kind, kind);
        }
    }
    assert!(locked > 0);
}
