use rustris::game::{game_update, GameState};
use rustris::tetrimino::{rotate_tetrimino, TetriminoKind};
use rustris::well::would_collide;

fn all_kinds() -> [TetriminoKind; 7] {
    [
        TetriminoKind::I,
        TetriminoKind::J,
        TetriminoKind::L,
        TetriminoKind::O,
        TetriminoKind::S,
        TetriminoKind::T,
        TetriminoKind::Z,
    ]
}

#[test]
fn new_game_starts_at_spawn_with_a_drawn_supply() {
    let gs = GameState::new();
    assert!(!gs.game_over);
    assert_eq!(gs.fall_counter, 0);
    assert_eq!(gs.ttmo_row, 2);
    assert_eq!(gs.ttmo_col, 3);
    assert_eq!(gs.ttmo_bag.len(), 5);
    assert!(gs.well.iter().all(|&v| v == 0));
    for kind in all_kinds() {
        let in_bag = gs.ttmo_bag.iter().filter(|t| t.kind == kind).count();
        let in_play = [gs.curr_ttmo.kind, gs.next_ttmo.kind].iter().filter(|&&k| k == kind).count();
        assert_eq!(in_bag + in_play, 1, "each kind exactly once across the supply");
    }
}

#[test]
fn gravity_counts_then_falls_one_row() {
    let mut gs = GameState::new();
    game_update(&mut gs);
    assert_eq!(gs.fall_counter, 1);
    assert_eq!(gs.ttmo_row, 2);
    for _ in 0..19 {
        game_update(&mut gs);
    }
    assert_eq!(gs.fall_counter, 20);
    assert_eq!(gs.ttmo_row, 2);
    game_update(&mut gs);
    assert_eq!(gs.fall_counter, 0);
    assert_eq!(gs.ttmo_row, 3);
}

#[test]
fn move_left_command_shifts_one_column() {
    let mut gs = GameState::new();
    gs.key_map.move_left = true;
    game_update(&mut gs);
    assert_eq!(gs.ttmo_col, 2);
}

#[test]
fn move_right_command_shifts_one_column() {
    let mut gs = GameState::new();
    gs.key_map.move_right = true;
    game_update(&mut gs);
    assert_eq!(gs.ttmo_col, 4);
}

#[test]
fn opposite_moves_in_one_tick_cancel_out() {
    let mut gs = GameState::new();
    gs.key_map.move_left = true;
    gs.key_map.move_right = true;
    game_update(&mut gs);
    assert_eq!(gs.ttmo_col, 3);
}

#[test]
fn moves_stop_at_the_walls() {
    let mut gs = GameState::new();
    for _ in 0..30 {
        gs.key_map.move_left = true;
        game_update(&mut gs);
    }
    assert!(!would_collide(&gs.curr_ttmo, &gs.well, gs.ttmo_row, gs.ttmo_col));
    assert!(would_collide(&gs.curr_ttmo, &gs.well, gs.ttmo_row, gs.ttmo_col - 1));
}

#[test]
fn soft_drop_command_falls_one_row() {
    let mut gs = GameState::new();
    gs.key_map.soft_drop = true;
    game_update(&mut gs);
    assert_eq!(gs.ttmo_row, 3);
}

#[test]
fn hard_drop_snaps_to_the_lowest_free_row() {
    let mut gs = GameState::new();
    gs.key_map.hard_drop = true;
    game_update(&mut gs);
    assert!(!would_collide(&gs.curr_ttmo, &gs.well, gs.ttmo_row, gs.ttmo_col));
    assert!(would_collide(&gs.curr_ttmo, &gs.well, gs.ttmo_row + 1, gs.ttmo_col));
    // hard drop repositions but does not itself freeze
    assert!(gs.well.iter().all(|&v| v == 0));
}

#[test]
fn rotation_command_turns_the_piece() {
    let mut gs = GameState::new();
    let mut expected = gs.curr_ttmo;
    rotate_tetrimino(&mut expected, true);
    gs.key_map.rotate_cw = true;
    game_update(&mut gs);
    assert_eq!(gs.curr_ttmo.shape, expected.shape);
    assert_eq!(gs.curr_ttmo.kind, expected.kind);
}

#[test]
fn counter_rotation_command_turns_the_piece_back() {
    let mut gs = GameState::new();
    let before = gs.curr_ttmo.shape;
    gs.key_map.rotate_cw = true;
    game_update(&mut gs);
    gs.key_map.rotate_ccw = true;
    game_update(&mut gs);
    assert_eq!(gs.curr_ttmo.shape, before);
}

#[test]
fn keys_are_cleared_after_every_tick() {
    let mut gs = GameState::new();
    gs.key_map.move_left = true;
    gs.key_map.move_right = true;
    gs.key_map.rotate_ccw = true;
    gs.key_map.rotate_cw = true;
    gs.key_map.soft_drop = true;
    gs.key_map.hard_drop = true;
    game_update(&mut gs);
    assert!(!gs.key_map.move_left);
    assert!(!gs.key_map.move_right);
    assert!(!gs.key_map.rotate_ccw);
    assert!(!gs.key_map.rotate_cw);
    assert!(!gs.key_map.soft_drop);
    assert!(!gs.key_map.hard_drop);
}

#[test]
fn soft_dropping_reaches_a_lock_and_promotes_next() {
    let mut gs = GameState::new();
    let promoted = gs.next_ttmo;
    let mut locked = false;
    for _ in 0..2000 {
        gs.key_map.soft_drop = true;
        game_update(&mut gs);
        if gs.well.iter().any(|&v| v != 0) {
            locked = true;
            break;
        }
    }
    assert!(locked, "repeated soft drops must lock the piece in finitely many ticks");
    assert_eq!(gs.curr_ttmo.kind, promoted.kind, "the old next piece becomes current");
    assert_eq!(gs.curr_ttmo.shape, promoted.shape);
    assert_eq!(gs.ttmo_bag.len(), 4, "a fresh next piece is drawn from the bag");
    // the spawned piece starts at row 2 and the still-latched soft drop of
    // the locking tick moves it one row down before the flags clear
    assert_eq!(gs.ttmo_row, 3);
    assert_eq!(gs.ttmo_col, 3);
}

#[test]
fn stacking_at_the_spawn_column_ends_the_game() {
    let mut gs = GameState::new();
    let mut ticks = 0u32;
    while !gs.game_over && ticks < 100_000 {
        game_update(&mut gs);
        ticks += 1;
    }
    assert!(gs.game_over, "an untouched game must eventually top out");
    // once the game is over, further updates change nothing at all
    let well_snapshot = gs.well;
    let row = gs.ttmo_row;
    let col = gs.ttmo_col;
    let counter = gs.fall_counter;
    let curr_shape = gs.curr_ttmo.shape;
    let bag_len = gs.ttmo_bag.len();
    for _ in 0..50 {
        game_update(&mut gs);
    }
    assert_eq!(gs.well, well_snapshot);
    assert_eq!(gs.ttmo_row, row);
    assert_eq!(gs.ttmo_col, col);
    assert_eq!(gs.fall_counter, counter);
    assert_eq!(gs.curr_ttmo.shape, curr_shape);
    assert_eq!(gs.ttmo_bag.len(), bag_len);
    assert!(gs.game_over);
}

#[test]
fn bag_refills_before_it_runs_dry() {
    let mut gs = GameState::new();
    let first_kind = gs.curr_ttmo.kind;
    let mut promoted = Vec::new();
    let mut last_len = gs.ttmo_bag.len();
    let mut refilled = false;
    for _ in 0..5000 {
        if gs.game_over {
            break;
        }
        gs.key_map.soft_drop = true;
        game_update(&mut gs);
        let len = gs.ttmo_bag.len();
        if len > last_len {
            // the sixth lock found the bag empty: a fresh full bag was
            // generated and one piece of it drawn as the new next
            assert_eq!(len, 6);
            refilled = true;
            break;
        }
        if len < last_len {
            promoted.push(gs.curr_ttmo.kind);
            last_len = len;
        }
    }
    assert!(refilled, "drawing past the first bag refills the supply");
    // the first piece, the five pieces promoted before the refill, and the
    // piece promoted at the refill cover all seven kinds exactly once
    promoted.push(first_kind);
    promoted.push(gs.curr_ttmo.kind);
    for kind in all_kinds() {
        let count = promoted.iter().filter(|&&k| k == kind).count();
        assert_eq!(count, 1, "no kind repeats within the first bag's supply");
    }
}
