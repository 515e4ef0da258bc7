use rustris::bag::create_random_bag;
use rustris::tetrimino::{rotate_tetrimino, Color, Tetrimino, TetriminoKind};
use rustris::well::{clear_complete_rows, freeze_to_well, would_collide, Well};

fn all_kinds() -> [TetriminoKind; 7] {
    [
        TetriminoKind::I,
        TetriminoKind::J,
        TetriminoKind::L,
        TetriminoKind::O,
        TetriminoKind::S,
        TetriminoKind::T,
        TetriminoKind::Z,
    ]
}

fn empty_well() -> Well {
    [0u8; 240]
}

#[test]
fn catalog_shapes_are_canonical() {
    let i = Tetrimino::new(TetriminoKind::I);
    assert_eq!(i.shape, [0, 0, 1, 0, 0, 0, 1, 0, 0, 0, 1, 0, 0, 0, 1, 0]);
    let j = Tetrimino::new(TetriminoKind::J);
    assert_eq!(j.shape, [1, 0, 0, 0, 1, 1, 1, 0, 0, 0, 0, 0, 0, 0, 0, 0]);
    let o = Tetrimino::new(TetriminoKind::O);
    assert_eq!(o.shape, [0, 0, 0, 0, 0, 0, 0, 0, 0, 1, 1, 0, 0, 1, 1, 0]);
    let t = Tetrimino::new(TetriminoKind::T);
    assert_eq!(t.shape, [0, 1, 0, 0, 1, 1, 1, 0, 0, 0, 0, 0, 0, 0, 0, 0]);
}

#[test]
fn catalog_colors_are_fixed() {
    let i = Tetrimino::new(TetriminoKind::I);
    assert_eq!(i.color, Color { red: 255, green: 255, blue: 255, alpha: 255 });
    let z = Tetrimino::new(TetriminoKind::Z);
    assert_eq!(z.color, Color { red: 255, green: 0, blue: 0, alpha: 255 });
    let o = Tetrimino::new(TetriminoKind::O);
    assert_eq!(o.color, Color { red: 0, green: 255, blue: 0, alpha: 255 });
}

#[test]
fn bag_holds_each_kind_exactly_once() {
    for _ in 0..20 {
        let bag = create_random_bag();
        assert_eq!(bag.len(), 7);
        for kind in all_kinds() {
            let count = bag.iter().filter(|t| t.kind == kind).count();
            assert_eq!(count, 1, "kind must appear exactly once per bag");
        }
    }
}

#[test]
fn bag_pieces_are_canonical() {
    let bag = create_random_bag();
    for piece in &bag {
        let fresh = Tetrimino::new(piece.kind);
        assert_eq!(piece.shape, fresh.shape);
        assert_eq!(piece.color, fresh.color);
    }
}

#[test]
fn rotate_four_times_clockwise_restores_shape() {
    for kind in all_kinds() {
        let original = Tetrimino::new(kind);
        let mut piece = original;
        for _ in 0..4 {
            rotate_tetrimino(&mut piece, true);
        }
        assert_eq!(piece.shape, original.shape, "four clockwise turns of {:?}", kind);
    }
}

#[test]
fn rotate_four_times_counter_clockwise_restores_shape() {
    for kind in all_kinds() {
        let original = Tetrimino::new(kind);
        let mut piece = original;
        for _ in 0..4 {
            rotate_tetrimino(&mut piece, false);
        }
        assert_eq!(piece.shape, original.shape, "four counter turns of {:?}", kind);
    }
}

#[test]
fn rotate_then_reverse_restores_shape() {
    for kind in all_kinds() {
        let original = Tetrimino::new(kind);
        let mut piece = original;
        rotate_tetrimino(&mut piece, true);
        rotate_tetrimino(&mut piece, false);
        assert_eq!(piece.shape, original.shape);
    }
}

#[test]
fn o_kind_is_rotation_invariant() {
    let original = Tetrimino::new(TetriminoKind::O);
    let mut piece = original;
    rotate_tetrimino(&mut piece, true);
    assert_eq!(piece.shape, original.shape);
    rotate_tetrimino(&mut piece, false);
    assert_eq!(piece.shape, original.shape);
}

#[test]
fn rotation_actually_turns_the_mask() {
    let mut piece = Tetrimino::new(TetriminoKind::I);
    rotate_tetrimino(&mut piece, true);
    // the vertical bar in column 2 becomes a horizontal bar in row 2
    assert_eq!(piece.shape, [0, 0, 0, 0, 0, 0, 0, 0, 1, 1, 1, 1, 0, 0, 0, 0]);
}

#[test]
fn collide_past_left_wall() {
    let well = empty_well();
    let j = Tetrimino::new(TetriminoKind::J);
    // J occupies column 0 of its mask, so anchor column -1 pokes the wall
    assert!(would_collide(&j, &well, 5, -1));
    assert!(!would_collide(&j, &well, 5, 0));
}

#[test]
fn collide_past_right_wall() {
    let well = empty_well();
    let j = Tetrimino::new(TetriminoKind::J);
    // J occupies columns 0..=2 of its mask, so anchor column 8 pokes the wall
    assert!(would_collide(&j, &well, 5, 8));
    assert!(!would_collide(&j, &well, 5, 7));
}

#[test]
fn collide_below_floor() {
    let well = empty_well();
    let j = Tetrimino::new(TetriminoKind::J);
    // J occupies rows 0..=1 of its mask, so anchor row 23 pokes the floor
    assert!(would_collide(&j, &well, 23, 4));
    assert!(!would_collide(&j, &well, 22, 4));
}

#[test]
fn no_collision_above_top_row() {
    let well = empty_well();
    let j = Tetrimino::new(TetriminoKind::J);
    // cells above row 0 sit in the spawn buffer and never hit a wall
    assert!(!would_collide(&j, &well, -1, 4));
}

#[test]
fn collide_with_frozen_cell() {
    let mut well = empty_well();
    well[10 * 10 + 4] = 1;  // one block at row 10, column 4
    let j = Tetrimino::new(TetriminoKind::J);
    assert!(would_collide(&j, &well, 10, 4));
    assert!(!would_collide(&j, &well, 8, 4));
}

#[test]
fn freeze_writes_the_piece_cells() {
    let mut well = empty_well();
    let t = Tetrimino::new(TetriminoKind::T);
    freeze_to_well(&t, &mut well, 10, 3);
    // T occupies (0,1), (1,0), (1,1), (1,2) of its mask
    assert_eq!(well[10 * 10 + 4], 1);
    assert_eq!(well[11 * 10 + 3], 1);
    assert_eq!(well[11 * 10 + 4], 1);
    assert_eq!(well[11 * 10 + 5], 1);
    let written: usize = well.iter().filter(|&&v| v != 0).count();
    assert_eq!(written, 4);
}

#[test]
fn freeze_then_collide_at_same_spot() {
    let mut well = empty_well();
    let s = Tetrimino::new(TetriminoKind::S);
    assert!(!would_collide(&s, &well, 12, 4));
    freeze_to_well(&s, &mut well, 12, 4);
    assert!(would_collide(&s, &well, 12, 4));
}

#[test]
fn clear_removes_a_single_full_bottom_row() {
    let mut well = empty_well();
    for c in 0..10 {
        well[23 * 10 + c] = 1;
    }
    let cleaned = clear_complete_rows(&well);
    assert_eq!(cleaned, empty_well());
}

#[test]
fn clear_drops_full_row_and_moves_partial_row_down() {
    let mut well = empty_well();
    for c in 0..9 {
        well[23 * 10 + c] = 1;  // bottom row only 9 of 10 filled
    }
    for c in 0..10 {
        well[22 * 10 + c] = 1;  // the row above is complete
    }
    let cleaned = clear_complete_rows(&well);
    let mut expected = empty_well();
    for c in 0..9 {
        expected[23 * 10 + c] = 1;
    }
    assert_eq!(cleaned, expected);
}

#[test]
fn clear_keeps_partial_rows_in_order_and_packs_them_down() {
    let mut well = empty_well();
    well[18 * 10 + 0] = 3;  // a partial row high up
    well[20 * 10 + 5] = 7;  // another partial row further down
    for c in 0..10 {
        well[21 * 10 + c] = 1;  // a complete row between them and the floor
    }
    let cleaned = clear_complete_rows(&well);
    let mut expected = empty_well();
    expected[22 * 10 + 0] = 3;
    expected[23 * 10 + 5] = 7;
    assert_eq!(cleaned, expected);
}

#[test]
fn clear_leaves_a_fully_partial_well_alone() {
    let mut well = empty_well();
    for r in 0..24 {
        well[r * 10 + (r % 10)] = 2;
    }
    let cleaned = clear_complete_rows(&well);
    assert_eq!(cleaned, well);
}
