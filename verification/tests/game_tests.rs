//! Behavior of the grid, the engine and the controller on concrete states.

use term_life::game::{key_of_char, Game, Key};

/// A game built directly from a pattern of rows, paused, cursor at origin.
fn game_from(rows: Vec<Vec<bool>>) -> Game {
    let height = rows.len() as u16;
    let width = rows[0].len() as u16;
    Game {
        field: rows,
        width,
        height,
        stop: true,
        cursor: (0, 0),
        detail_view: false,
    }
}

fn b(v: &[u8]) -> Vec<bool> {
    v.iter().map(|&c| c == 1).collect()
}

#[test]
fn new_starts_paused_dead_and_at_origin() {
    let g = Game::new(10, 8);
    assert_eq!(g.width, 10);
    assert_eq!(g.height, 8);
    assert!(g.stop);
    assert!(!g.detail_view);
    assert_eq!(g.cursor, (0, 0));
    for y in 0..8 {
        for x in 0..10 {
            assert!(!g.is_alive_at(x, y));
        }
    }
}

#[test]
fn neighbor_wrap_periodicity() {
    let mut g = Game::new(7, 5);
    g.toggle_cell(); // (0, 0) becomes live
    for y in -2..12 {
        for x in -2..16 {
            assert_eq!(g.is_alive_at(x, y), g.is_alive_at(x + 7, y));
            assert_eq!(g.is_alive_at(x, y), g.is_alive_at(x, y + 5));
        }
    }
    assert!(g.is_alive_at(0, 0));
    assert!(g.is_alive_at(-7, -5));
    assert!(g.is_alive_at(70, 50));
    assert!(!g.is_alive_at(1, 0));
}

#[test]
fn wrap_handles_far_out_of_range_coordinates() {
    let mut g = Game::new(3, 3);
    g.toggle_cell(); // (0, 0) live
    // 70000 = 3 * 23333 + 1, so column 70000 wraps to column 1.
    assert!(!g.is_alive_at(70000, 0));
    assert!(g.is_alive_at(69999, 0));
    // -70000 wraps to column 2 (since -70000 + 70002 = 2).
    assert!(!g.is_alive_at(-70000, 0));
    assert!(g.is_alive_at(-69999 - 3, 0));
    assert!(g.is_alive_at(i32::MIN + (i32::MIN % 3).unsigned_abs() as i32, 0));
}

#[test]
fn block_is_a_still_life() {
    let g = game_from(vec![
        b(&[0, 0, 0, 0]),
        b(&[0, 1, 1, 0]),
        b(&[0, 1, 1, 0]),
        b(&[0, 0, 0, 0]),
    ]);
    let before = g.field.clone();
    let mut g = g;
    g.step();
    assert_eq!(g.field, before);
}

#[test]
fn blinker_oscillates_with_period_two() {
    let horizontal = vec![
        b(&[0, 0, 0, 0, 0]),
        b(&[0, 0, 0, 0, 0]),
        b(&[0, 1, 1, 1, 0]),
        b(&[0, 0, 0, 0, 0]),
        b(&[0, 0, 0, 0, 0]),
    ];
    let vertical = vec![
        b(&[0, 0, 0, 0, 0]),
        b(&[0, 0, 1, 0, 0]),
        b(&[0, 0, 1, 0, 0]),
        b(&[0, 0, 1, 0, 0]),
        b(&[0, 0, 0, 0, 0]),
    ];
    let mut g = game_from(horizontal.clone());
    g.step();
    assert_eq!(g.field, vertical);
    g.step();
    assert_eq!(g.field, horizontal);
}

#[test]
fn dead_cell_with_three_neighbors_is_born() {
    // Three live cells in a column; the cells right and left of the middle
    // each see exactly 3 live neighbors.
    let mut g = game_from(vec![
        b(&[0, 0, 0, 0, 0]),
        b(&[0, 0, 1, 0, 0]),
        b(&[0, 0, 1, 0, 0]),
        b(&[0, 0, 1, 0, 0]),
        b(&[0, 0, 0, 0, 0]),
    ]);
    assert!(!g.is_alive_at(1, 2));
    g.step();
    assert!(g.is_alive_at(1, 2));
    assert!(g.is_alive_at(3, 2));
}

#[test]
fn dead_cell_with_two_or_four_neighbors_stays_dead() {
    // (1, 2) sees two live neighbors.
    let mut two = game_from(vec![
        b(&[0, 0, 0, 0, 0]),
        b(&[0, 0, 1, 0, 0]),
        b(&[0, 0, 1, 0, 0]),
        b(&[0, 0, 0, 0, 0]),
        b(&[0, 0, 0, 0, 0]),
    ]);
    two.step();
    assert!(!two.is_alive_at(1, 2));
    // (2, 2) sees four live neighbors.
    let mut four = game_from(vec![
        b(&[0, 0, 0, 0, 0]),
        b(&[0, 1, 0, 1, 0]),
        b(&[0, 0, 0, 0, 0]),
        b(&[0, 1, 0, 1, 0]),
        b(&[0, 0, 0, 0, 0]),
    ]);
    assert!(!four.is_alive_at(2, 2));
    four.step();
    assert!(!four.is_alive_at(2, 2));
}

#[test]
fn live_cell_with_two_or_three_neighbors_survives() {
    // In the blinker, the center has 2 neighbors; in the block each cell has 3.
    let mut blinker = game_from(vec![
        b(&[0, 0, 0, 0, 0]),
        b(&[0, 0, 0, 0, 0]),
        b(&[0, 1, 1, 1, 0]),
        b(&[0, 0, 0, 0, 0]),
        b(&[0, 0, 0, 0, 0]),
    ]);
    blinker.step();
    assert!(blinker.is_alive_at(2, 2));
    let mut block = game_from(vec![
        b(&[0, 0, 0, 0]),
        b(&[0, 1, 1, 0]),
        b(&[0, 1, 1, 0]),
        b(&[0, 0, 0, 0]),
    ]);
    block.step();
    assert!(block.is_alive_at(1, 1));
}

#[test]
fn live_cell_with_zero_one_or_four_neighbors_dies() {
    // A lone cell has 0 neighbors.
    let mut lone = game_from(vec![
        b(&[0, 0, 0, 0, 0]),
        b(&[0, 0, 0, 0, 0]),
        b(&[0, 0, 1, 0, 0]),
        b(&[0, 0, 0, 0, 0]),
        b(&[0, 0, 0, 0, 0]),
    ]);
    lone.step();
    assert!(!lone.is_alive_at(2, 2));
    // Each end of a 2-cell line has exactly 1 neighbor.
    let mut pair = game_from(vec![
        b(&[0, 0, 0, 0, 0]),
        b(&[0, 0, 0, 0, 0]),
        b(&[0, 1, 1, 0, 0]),
        b(&[0, 0, 0, 0, 0]),
        b(&[0, 0, 0, 0, 0]),
    ]);
    pair.step();
    assert!(!pair.is_alive_at(1, 2));
    assert!(!pair.is_alive_at(2, 2));
    // The center of a plus sign has 4 neighbors.
    let mut plus = game_from(vec![
        b(&[0, 0, 0, 0, 0]),
        b(&[0, 0, 1, 0, 0]),
        b(&[0, 1, 1, 1, 0]),
        b(&[0, 0, 1, 0, 0]),
        b(&[0, 0, 0, 0, 0]),
    ]);
    assert!(plus.is_alive_at(2, 2));
    plus.step();
    assert!(!plus.is_alive_at(2, 2));
}

#[test]
fn cursor_stops_at_every_edge() {
    let mut g = Game::new(3, 2);
    // Already at the top-left corner: Up and Left leave it unchanged.
    assert!(g.handle_input(Key::Up));
    assert_eq!(g.cursor, (0, 0));
    assert!(g.handle_input(Key::Left));
    assert_eq!(g.cursor, (0, 0));
    // Walk right past the edge.
    assert!(g.handle_input(Key::Right));
    assert_eq!(g.cursor, (1, 0));
    assert!(g.handle_input(Key::Right));
    assert_eq!(g.cursor, (2, 0));
    assert!(g.handle_input(Key::Right));
    assert_eq!(g.cursor, (2, 0));
    // Walk down past the edge.
    assert!(g.handle_input(Key::Down));
    assert_eq!(g.cursor, (2, 1));
    assert!(g.handle_input(Key::Down));
    assert_eq!(g.cursor, (2, 1));
}

#[test]
fn paused_ticks_never_change_the_grid() {
    let mut g = game_from(vec![
        b(&[0, 0, 0, 0, 0]),
        b(&[0, 0, 0, 0, 0]),
        b(&[0, 1, 1, 1, 0]),
        b(&[0, 0, 0, 0, 0]),
        b(&[0, 0, 0, 0, 0]),
    ]);
    assert!(g.stop);
    let before = g.field.clone();
    for _ in 0..25 {
        g.tick();
        assert_eq!(g.field, before);
    }
}

#[test]
fn unpaused_tick_advances_one_generation() {
    let mut g = game_from(vec![
        b(&[0, 0, 0, 0, 0]),
        b(&[0, 0, 0, 0, 0]),
        b(&[0, 1, 1, 1, 0]),
        b(&[0, 0, 0, 0, 0]),
        b(&[0, 0, 0, 0, 0]),
    ]);
    g.stop = false;
    g.tick();
    assert!(g.is_alive_at(2, 1));
    assert!(g.is_alive_at(2, 2));
    assert!(g.is_alive_at(2, 3));
    assert!(!g.is_alive_at(1, 2));
}

#[test]
fn toggle_cell_flips_only_the_cursor_cell() {
    let mut g = Game::new(4, 4);
    g.handle_input(Key::Right);
    g.handle_input(Key::Down);
    g.toggle_cell();
    for y in 0..4 {
        for x in 0..4 {
            assert_eq!(g.is_alive_at(x, y), (x, y) == (1, 1));
        }
    }
    g.toggle_cell();
    assert!(!g.is_alive_at(1, 1));
}

#[test]
fn resize_resets_content_and_clamps_cursor() {
    let mut g = Game::new(6, 6);
    g.cursor = (5, 5);
    g.toggle_cell();
    assert!(g.is_alive_at(5, 5));
    // Shrinking resets the whole board (an intentional quirk) and pulls the
    // cursor back in bounds.
    g.resize(4, 3);
    assert_eq!(g.width, 4);
    assert_eq!(g.height, 3);
    assert_eq!(g.cursor, (3, 2));
    for y in 0..3 {
        for x in 0..4 {
            assert!(!g.is_alive_at(x, y));
        }
    }
    // Growing resets too.
    g.toggle_cell();
    g.resize(8, 8);
    assert_eq!(g.cursor, (3, 2));
    for y in 0..8 {
        for x in 0..8 {
            assert!(!g.is_alive_at(x, y));
        }
    }
}

#[test]
fn stop_view_quit_and_other_keys() {
    let mut g = Game::new(4, 4);
    assert!(g.stop);
    assert!(g.handle_input(Key::Stop));
    assert!(!g.stop);
    assert!(g.handle_input(Key::Stop));
    assert!(g.stop);
    assert!(!g.detail_view);
    assert!(g.handle_input(Key::ToggleView));
    assert!(g.detail_view);
    assert!(g.handle_input(Key::ToggleCell));
    assert!(g.is_alive_at(0, 0));
    let cursor = g.cursor;
    assert!(g.handle_input(Key::Other));
    assert_eq!(g.cursor, cursor);
    assert!(g.is_alive_at(0, 0));
    // Quit reports termination and changes nothing.
    assert!(!g.handle_input(Key::Quit));
    assert!(g.is_alive_at(0, 0));
    assert!(g.stop);
}

#[test]
fn character_keys_decode_to_their_commands() {
    assert_eq!(key_of_char('q'), Key::Quit);
    assert_eq!(key_of_char('s'), Key::Stop);
    assert_eq!(key_of_char('v'), Key::ToggleView);
    assert_eq!(key_of_char(' '), Key::ToggleCell);
    assert_eq!(key_of_char('k'), Key::Up);
    assert_eq!(key_of_char('j'), Key::Down);
    assert_eq!(key_of_char('h'), Key::Left);
    assert_eq!(key_of_char('l'), Key::Right);
    assert_eq!(key_of_char('x'), Key::Other);
    assert_eq!(key_of_char('Q'), Key::Other);
}
