use tetris_core::board::{GameBoard, Position, BOARD_SIDE};
use tetris_core::catalog::{
    block_at_draw, color_at_draw, next_block, next_color, BlockPatterns, Color, Materials, Shape,
};
use tetris_core::game::{
    block_fall, run_frame, send_new_block_event, spawn_block, spawn_block_element,
    spawn_block_element_from, Block, BlockState, FreeBlock, Game, NewBlockEvents,
};
use tetris_core::screen::position_translation;
use tetris_core::timer::{tick_block_fall_timer, BlockFallTimer, BLOCK_FALL_INTERVAL};

const I_SHAPE: Shape = [(0, 0), (0, -1), (0, 1), (0, 2)];

fn pos(x: i32, y: i32) -> Position {
    Position { x, y }
}

fn free_block(cells: [Position; 4]) -> Block {
    Block { cells, color: Color::rgb_u8(1, 2, 3), state: BlockState::Free(FreeBlock {}) }
}

fn make_ready(game: &mut Game) {
    tick_block_fall_timer(&mut game.timer, BLOCK_FALL_INTERVAL);
}

#[test]
fn spawn_i_shape_at_origin() {
    let b = spawn_block(&I_SHAPE, Color::rgb_u8(64, 230, 100));
    assert_eq!(b.cells, [pos(5, 14), pos(5, 13), pos(5, 15), pos(5, 16)]);
    assert_eq!(b.color, Color::rgb_u8(64, 230, 100));
    assert_eq!(b.state, BlockState::Free(FreeBlock {}));
}

#[test]
fn spawned_cells_are_distinct_for_every_standard_shape() {
    let patterns = BlockPatterns::default();
    assert_eq!(patterns.0.len(), 7);
    for shape in patterns.0.iter() {
        let b = spawn_block(shape, Color::rgb_u8(0, 0, 0));
        for i in 0..4 {
            for j in 0..4 {
                if i != j {
                    assert_ne!(b.cells[i], b.cells[j]);
                }
            }
        }
    }
}

#[test]
fn cell_on_floor_blocks_whole_block() {
    let mut game = Game::new();
    game.falling = Some(free_block([pos(2, 0), pos(2, 1), pos(3, 1), pos(4, 5)]));
    make_ready(&mut game);
    block_fall(&mut game);
    assert!(game.falling.is_none());
    assert_eq!(game.fixed.len(), 1);
    assert!(matches!(game.fixed[0].state, BlockState::Fixed(_)));
    assert_eq!(game.fixed[0].cells, [pos(2, 0), pos(2, 1), pos(3, 1), pos(4, 5)]);
    assert!(game.board.is_occupied(2, 0));
    assert!(game.board.is_occupied(2, 1));
    assert!(game.board.is_occupied(3, 1));
    assert!(game.board.is_occupied(4, 5));
    assert!(!game.board.is_occupied(4, 4));
}

#[test]
fn fix_sends_one_event_and_spawn_drains_all() {
    let mut game = Game::new();
    game.falling = Some(free_block([pos(5, 0), pos(5, 1), pos(5, 2), pos(5, 3)]));
    make_ready(&mut game);
    block_fall(&mut game);
    assert_eq!(game.events.len(), 1);
    send_new_block_event(&mut game.events);
    assert_eq!(game.events.len(), 2);
    spawn_block_element_from(&mut game, 0, 0);
    assert_eq!(game.events.len(), 0);
    let b = game.falling.expect("one block spawned");
    assert_eq!(b.cells, [pos(5, 14), pos(5, 13), pos(5, 15), pos(5, 16)]);
    assert_eq!(b.color, Color::rgb_u8(64, 230, 100));
    assert_eq!(game.fixed.len(), 1);
    // No further request: nothing more spawns.
    spawn_block_element(&mut game);
    assert_eq!(game.falling.unwrap().cells, b.cells);
}

#[test]
fn occupied_cell_below_blocks_only_its_column() {
    let mut board = GameBoard::default();
    board.mark_occupied(3, 2);
    assert!(board.is_blocked(&pos(3, 3)));
    assert!(!board.is_blocked(&pos(4, 3)));
    assert!(!board.is_blocked(&pos(3, 4)));
}

#[test]
fn cells_off_the_board_never_block() {
    let board = GameBoard::default();
    assert!(board.is_blocked(&pos(0, 0)));
    assert!(!board.is_blocked(&pos(-1, 0)));
    assert!(!board.is_blocked(&pos(10, 0)));
    assert!(!board.is_blocked(&pos(3, 18)));
    assert!(!board.is_blocked(&pos(3, -1)));
}

#[test]
fn unobstructed_block_falls_one_row_per_ready_tick() {
    let mut game = Game::new();
    send_new_block_event(&mut game.events);
    spawn_block_element_from(&mut game, 6, 3);
    let start = game.falling.unwrap();
    for n in 1..=10 {
        make_ready(&mut game);
        block_fall(&mut game);
        let b = game.falling.unwrap();
        for i in 0..4 {
            assert_eq!(b.cells[i].x, start.cells[i].x);
            assert_eq!(b.cells[i].y, start.cells[i].y - n);
        }
        assert_eq!(b.color, start.color);
    }
}

#[test]
fn no_fall_without_ready_timer() {
    let mut game = Game::new();
    send_new_block_event(&mut game.events);
    spawn_block_element_from(&mut game, 0, 0);
    tick_block_fall_timer(&mut game.timer, BLOCK_FALL_INTERVAL - 1);
    block_fall(&mut game);
    assert_eq!(game.falling.unwrap().cells[0], pos(5, 14));
    tick_block_fall_timer(&mut game.timer, 1);
    block_fall(&mut game);
    assert_eq!(game.falling.unwrap().cells[0], pos(5, 13));
}

#[test]
fn marking_twice_equals_marking_once() {
    let mut once = GameBoard::default();
    once.mark_occupied(7, 9);
    let mut twice = GameBoard::default();
    twice.mark_occupied(7, 9);
    twice.mark_occupied(7, 9);
    for y in 0..BOARD_SIDE {
        for x in 0..BOARD_SIDE {
            assert_eq!(once.is_occupied(x, y), twice.is_occupied(x, y));
            assert_eq!(once.is_occupied(x, y), x == 7 && y == 9);
        }
    }
}

#[test]
fn occupancy_never_reverts_over_a_run() {
    let mut game = Game::new();
    send_new_block_event(&mut game.events);
    let mut seen: Vec<(usize, usize)> = Vec::new();
    for _ in 0..400 {
        run_frame(&mut game, BLOCK_FALL_INTERVAL);
        for &(x, y) in seen.iter() {
            assert!(game.board.is_occupied(x, y));
        }
        for y in 0..BOARD_SIDE {
            for x in 0..BOARD_SIDE {
                if game.board.is_occupied(x, y) && !seen.contains(&(x, y)) {
                    seen.push((x, y));
                }
            }
        }
    }
    assert!(!seen.is_empty());
    assert!(game.fixed.len() >= 2);
}

#[test]
fn at_most_one_block_falls_over_a_run() {
    let mut game = Game::new();
    send_new_block_event(&mut game.events);
    for _ in 0..300 {
        let had_falling = game.falling.is_some();
        let fixed_before = game.fixed.len();
        run_frame(&mut game, BLOCK_FALL_INTERVAL);
        if had_falling && game.fixed.len() == fixed_before {
            assert!(game.falling.is_some());
        }
        if game.falling.is_some() {
            assert_eq!(game.events.len(), 0);
        }
    }
}

#[test]
fn spawned_block_does_not_fall_in_its_frame() {
    let mut game = Game::new();
    send_new_block_event(&mut game.events);
    run_frame(&mut game, BLOCK_FALL_INTERVAL);
    assert_eq!(game.falling.unwrap().cells[0], pos(5, 14));
    run_frame(&mut game, BLOCK_FALL_INTERVAL);
    assert_eq!(game.falling.unwrap().cells[0], pos(5, 13));
}

#[test]
fn timer_accumulates_and_wraps() {
    let mut timer = BlockFallTimer::default();
    assert!(!timer.consume_if_ready());
    tick_block_fall_timer(&mut timer, 300_000_000);
    assert!(!timer.consume_if_ready());
    tick_block_fall_timer(&mut timer, 300_000_000);
    assert!(timer.consume_if_ready());
    assert!(!timer.consume_if_ready());
    // 200 ms were left over; a slow frame of 1 s passes three intervals at once.
    tick_block_fall_timer(&mut timer, 1_000_000_000);
    assert!(timer.consume_if_ready());
    assert!(!timer.consume_if_ready());
    // 0.2 + 1.0 = 1.2 s is exactly three intervals: nothing left over.
    tick_block_fall_timer(&mut timer, 399_999_999);
    assert!(!timer.consume_if_ready());
}

#[test]
fn timer_survives_huge_delta() {
    let mut timer = BlockFallTimer::new(7);
    tick_block_fall_timer(&mut timer, u64::MAX);
    assert!(timer.consume_if_ready());
    // u64::MAX = 18446744073709551615, which is 1 modulo 7.
    tick_block_fall_timer(&mut timer, 5);
    assert!(!timer.consume_if_ready());
    tick_block_fall_timer(&mut timer, 1);
    assert!(timer.consume_if_ready());
}

#[test]
fn draws_select_modulo_catalog_size() {
    let patterns = BlockPatterns::default();
    assert_eq!(block_at_draw(&patterns.0, 9), [(0, 0), (0, -1), (0, 1), (1, 1)]);
    assert_eq!(block_at_draw(&patterns.0, 6), [(0, 0), (-1, 0), (1, 0), (0, 1)]);
    let materials = Materials::default();
    assert_eq!(materials.colors.len(), 6);
    assert_eq!(color_at_draw(&materials.colors, 13), Color::rgb_u8(220, 64, 90));
    assert_eq!(color_at_draw(&materials.colors, 5), Color::rgb_u8(240, 140, 70));
}

#[test]
fn random_draws_come_from_the_catalogs() {
    let patterns = BlockPatterns::default();
    let materials = Materials::default();
    let mut shapes_seen = 0usize;
    for _ in 0..200 {
        let s = next_block(&patterns.0);
        assert!(patterns.0.contains(&s));
        let c = next_color(&materials.colors);
        assert!(materials.colors.contains(&c));
        if s != patterns.0[0] {
            shapes_seen += 1;
        }
    }
    // Two hundred draws that all give the first shape would mean the draw is stuck.
    assert!(shapes_seen > 0);
}

#[test]
fn random_spawn_uses_catalogs() {
    let mut game = Game::new();
    send_new_block_event(&mut game.events);
    spawn_block_element(&mut game);
    let b = game.falling.unwrap();
    assert!(game.materials.colors.contains(&b.color));
    let mut found = false;
    for shape in game.patterns.0.iter() {
        if spawn_block(shape, b.color).cells == b.cells {
            found = true;
        }
    }
    assert!(found);
    assert_eq!(game.events.len(), 0);
}

#[test]
fn new_events_queue_counts() {
    let mut events = NewBlockEvents::new();
    assert_eq!(events.len(), 0);
    assert!(!events.drain());
    events.send();
    events.send();
    events.send();
    assert_eq!(events.len(), 3);
    assert!(events.drain());
    assert_eq!(events.len(), 0);
}

#[test]
fn screen_position_of_cells() {
    assert_eq!(position_translation(&pos(0, 0)), (-180, -340));
    assert_eq!(position_translation(&pos(5, 14)), (20, 220));
    assert_eq!(position_translation(&pos(9, 17)), (180, 340));
}

#[test]
fn block_off_the_board_passes_through() {
    let mut game = Game::new();
    game.falling = Some(free_block([pos(10, 0), pos(11, 0), pos(10, 1), pos(11, 1)]));
    make_ready(&mut game);
    block_fall(&mut game);
    let b = game.falling.expect("still falling");
    assert_eq!(b.cells, [pos(10, -1), pos(11, -1), pos(10, 0), pos(11, 0)]);
    assert_eq!(game.events.len(), 0);
    assert!(game.fixed.is_empty());
    assert!(!game.board.is_occupied(10, 0));
}

#[test]
fn run_frame_advances_timer_and_fixes_on_floor() {
    let mut game = Game::new();
    game.falling = Some(free_block([pos(2, 0), pos(2, 1), pos(2, 2), pos(2, 3)]));
    // Not yet a whole interval: nothing moves.
    run_frame(&mut game, BLOCK_FALL_INTERVAL / 2);
    assert_eq!(game.falling.unwrap().cells[0], pos(2, 0));
    // The interval completes in this frame: the block is fixed and one request is sent.
    run_frame(&mut game, BLOCK_FALL_INTERVAL / 2);
    assert!(game.falling.is_none());
    assert_eq!(game.events.len(), 1);
    assert!(game.board.is_occupied(2, 3));
    // The next frame spawns the new block at the origin.
    run_frame(&mut game, 1);
    assert_eq!(game.events.len(), 0);
    assert!(game.falling.is_some());
}
