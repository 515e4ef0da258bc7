//! The game state machine: gravity, locking, spawning, game over, and the
//! one-shot input commands, advanced one tick at a time.

use vstd::prelude::*;
use crate::tetrimino::{
    canonical_color, canonical_shape, is_canonical, rotate_tetrimino, rotated_shape,
    shape_occupied, shape_wf, Color, Tetrimino, TetriminoKind,
};
use crate::well::{
    cell_blocked, clear_complete_rows, cleared_well, freeze_to_well, frozen_well,
    placement_collides, placement_inside, would_collide, Well,
};
use crate::bag::{create_random_bag, is_full_bag, kind_count};

verus! {

/// How many ticks pass between one row of gravity fall and the next.
pub const FALL_THRESHOLD: u32 = 20;

/// The fixed spawn anchor of a fresh piece: near the top, near the center.
pub const SPAWN_ROW: i32 = 2;

pub const SPAWN_COL: i32 = 3;

/// The six one-shot input command flags. The input adapter latches a flag
/// when a key goes down; the state machine consumes each flag at most once
/// per tick and then clears them all.
#[derive(Clone, Copy, PartialEq, Eq, Structural, Debug)]
pub struct Keys {
    pub move_left: bool,
    pub move_right: bool,
    pub rotate_ccw: bool,
    pub rotate_cw: bool,
    pub soft_drop: bool,
    pub hard_drop: bool,
}

/// All flags cleared.
pub open spec fn no_keys() -> Keys {
    Keys {
        move_left: false,
        move_right: false,
        rotate_ccw: false,
        rotate_cw: false,
        soft_drop: false,
        hard_drop: false,
    }
}

impl Keys {
    /// A key map with nothing pressed.
    pub fn none() -> (keys: Keys)
        ensures
            keys == no_keys(),
    {
        Keys {
            move_left: false,
            move_right: false,
            rotate_ccw: false,
            rotate_cw: false,
            soft_drop: false,
            hard_drop: false,
        }
    }
}

/// The mathematical snapshot of a piece.
#[verifier::ext_equal]
pub struct TetriminoV {
    pub kind: TetriminoKind,
    pub color: Color,
    pub shape: Seq<u8>,
}

impl View for Tetrimino {
    type V = TetriminoV;

    open spec fn view(&self) -> TetriminoV {
        TetriminoV { kind: self.kind, color: self.color, shape: self.shape@ }
    }
}

/// A piece snapshot whose mask the piece can actually reach.
pub open spec fn tv_wf(t: TetriminoV) -> bool {
    shape_wf(t.kind, t.shape)
}

/// A piece snapshot straight out of the catalog.
pub open spec fn canonical_v(t: TetriminoV) -> bool {
    t.color == canonical_color(t.kind) && t.shape == canonical_shape(t.kind)
}

/// How many pieces of the given kind a sequence of snapshots holds.
pub open spec fn kind_count_v(s: Seq<TetriminoV>, kind: TetriminoKind) -> nat
    decreases s.len(),
{
    if s.len() == 0 {
        0
    } else {
        kind_count_v(s.drop_last(), kind) + if s.last().kind == kind {
            1nat
        } else {
            0nat
        }
    }
}

/// The snapshots of a vector of pieces, in order.
pub open spec fn bag_views(s: Seq<Tetrimino>) -> Seq<TetriminoV> {
    Seq::new(s.len(), |i: int| s[i]@)
}

/// A full bag of snapshots: seven pieces, one of each kind, all canonical.
pub open spec fn full_bag_v(s: Seq<TetriminoV>) -> bool {
    &&& s.len() == 7
    &&& forall|kind: TetriminoKind| #[trigger] kind_count_v(s, kind) == 1
    &&& forall|i: int| 0 <= i < s.len() ==> #[trigger] canonical_v(s[i])
}

/// The mathematical snapshot of the whole game.
#[verifier::ext_equal]
pub struct StateV {
    pub game_over: bool,
    pub fall_counter: u32,
    pub well: Seq<u8>,
    pub bag: Seq<TetriminoV>,
    pub curr: TetriminoV,
    pub next: TetriminoV,
    pub row: int,
    pub col: int,
    pub keys: Keys,
}

/// The running game: the well, the piece supply, the falling piece and the
/// piece shown as next, and the latched input flags.
pub struct GameState {
    pub game_over: bool,
    pub fall_counter: u32,
    pub well: Well,
    pub ttmo_bag: Vec<Tetrimino>,
    pub curr_ttmo: Tetrimino,
    pub next_ttmo: Tetrimino,
    pub ttmo_row: i32,
    pub ttmo_col: i32,
    pub key_map: Keys,
}

impl View for GameState {
    type V = StateV;

    open spec fn view(&self) -> StateV {
        StateV {
            game_over: self.game_over,
            fall_counter: self.fall_counter,
            well: self.well@,
            bag: bag_views(self.ttmo_bag@),
            curr: self.curr_ttmo@,
            next: self.next_ttmo@,
            row: self.ttmo_row as int,
            col: self.ttmo_col as int,
            keys: self.key_map,
        }
    }
}

/// The state machine's invariant. While the game runs, the falling piece
/// sits at a legal anchor inside the well's coordinate range; the shapes in
/// play are always reachable masks; and the gravity counter never passes its
/// threshold.
pub open spec fn wf_v(s: StateV) -> bool {
    &&& s.fall_counter <= FALL_THRESHOLD
    &&& s.well.len() == 240
    &&& tv_wf(s.curr)
    &&& tv_wf(s.next)
    &&& forall|i: int| 0 <= i < s.bag.len() ==> tv_wf(#[trigger] s.bag[i])
    &&& !s.game_over ==> {
        &&& 0 <= s.row <= 23
        &&& -3 <= s.col <= 9
        &&& !placement_collides(s.curr.shape, s.well, s.row, s.col)
    }
}

/// This tick's gravity advance will lock the piece: the counter has reached
/// its threshold and the row below is not free.
pub open spec fn gravity_locks(s: StateV) -> bool {
    s.fall_counter >= FALL_THRESHOLD && placement_collides(s.curr.shape, s.well, s.row + 1, s.col)
}

/// The gravity phase of one tick. Until the counter reaches its threshold it
/// just counts. At the threshold the piece either falls one row, or — when
/// the row below is taken — locks: it is frozen into the well, complete rows
/// are cleared, the bag is refilled with `refill` if it ran empty, the next
/// piece is promoted and a new next drawn, and the game ends if the promoted
/// piece cannot sit at the spawn anchor.
pub open spec fn after_gravity(s: StateV, refill: Seq<TetriminoV>) -> StateV {
    if s.fall_counter < FALL_THRESHOLD {
        StateV { fall_counter: (s.fall_counter + 1) as u32, ..s }
    } else if !placement_collides(s.curr.shape, s.well, s.row + 1, s.col) {
        StateV { fall_counter: 0, row: s.row + 1, ..s }
    } else {
        let locked = cleared_well(frozen_well(s.curr.shape, s.well, s.row, s.col));
        let bag0 = if s.bag.len() == 0 {
            refill
        } else {
            s.bag
        };
        let promoted = s.next;
        StateV {
            game_over: placement_collides(promoted.shape, locked, SPAWN_ROW as int, SPAWN_COL as int),
            fall_counter: 0,
            well: locked,
            bag: bag0.drop_last(),
            curr: promoted,
            next: bag0.last(),
            row: SPAWN_ROW as int,
            col: SPAWN_COL as int,
            keys: s.keys,
        }
    }
}

/// The move-left command: step one column left if that spot is free.
pub open spec fn after_left(s: StateV) -> StateV {
    if s.keys.move_left && !placement_collides(s.curr.shape, s.well, s.row, s.col - 1) {
        StateV { col: s.col - 1, ..s }
    } else {
        s
    }
}

/// The move-right command: step one column right if that spot is free.
pub open spec fn after_right(s: StateV) -> StateV {
    if s.keys.move_right && !placement_collides(s.curr.shape, s.well, s.row, s.col + 1) {
        StateV { col: s.col + 1, ..s }
    } else {
        s
    }
}

/// The soft-drop command: step one row down if that spot is free.
pub open spec fn after_soft(s: StateV) -> StateV {
    if s.keys.soft_drop && !placement_collides(s.curr.shape, s.well, s.row + 1, s.col) {
        StateV { row: s.row + 1, ..s }
    } else {
        s
    }
}

/// The first anchor row at or below `r` where the piece collides, or 24 if
/// no row up to the floor scan limit collides.
pub open spec fn first_blocked_row(sh: Seq<u8>, w: Seq<u8>, r: int, col: int) -> int
    decreases 24 - r,
{
    if r >= 24 {
        24
    } else if placement_collides(sh, w, r, col) {
        r
    } else {
        first_blocked_row(sh, w, r + 1, col)
    }
}

/// The hard-drop command: snap the piece to the row just above the first
/// blocked row below it. It only repositions; the piece still freezes on a
/// later gravity lock, not here.
pub open spec fn after_hard(s: StateV) -> StateV {
    if s.keys.hard_drop {
        let fb = first_blocked_row(s.curr.shape, s.well, s.row, s.col);
        if fb < 24 {
            StateV { row: fb - 1, ..s }
        } else {
            s
        }
    } else {
        s
    }
}

/// A rotation command: turn the piece, test the turned mask at the unchanged
/// anchor, and turn it straight back if it does not fit there.
pub open spec fn after_rotate(s: StateV, clockwise: bool) -> StateV {
    let key = if clockwise {
        s.keys.rotate_cw
    } else {
        s.keys.rotate_ccw
    };
    if key {
        let turned = rotated_shape(s.curr.kind, s.curr.shape, clockwise);
        let kept = if placement_collides(turned, s.well, s.row, s.col) {
            rotated_shape(s.curr.kind, turned, !clockwise)
        } else {
            turned
        };
        StateV { curr: (TetriminoV { shape: kept, ..s.curr }), ..s }
    } else {
        s
    }
}

/// Every latched command flag is cleared at the end of the tick, whether or
/// not it was acted on.
pub open spec fn after_clear_keys(s: StateV) -> StateV {
    StateV { keys: no_keys(), ..s }
}

/// One whole simulation tick: gravity (possibly locking and spawning), then
/// the commands in their fixed order — left, right, soft drop, hard drop,
/// rotate counter-clockwise, rotate clockwise — and finally the key clear.
pub open spec fn tick(s: StateV, refill: Seq<TetriminoV>) -> StateV {
    after_clear_keys(
        after_rotate(
            after_rotate(
                after_hard(after_soft(after_right(after_left(after_gravity(s, refill))))),
                false,
            ),
            true,
        ),
    )
}

/// A canonical mask is a reachable mask.
pub proof fn lemma_canonical_shape_wf(kind: TetriminoKind)
    ensures
        shape_wf(kind, canonical_shape(kind)),
{
    let s = canonical_shape(kind);
    match kind {
        TetriminoKind::I => {
            assert(shape_occupied(s, 0, 2));
        },
        TetriminoKind::J => {
            assert(shape_occupied(s, 0, 0));
        },
        TetriminoKind::L => {
            assert(shape_occupied(s, 0, 2));
        },
        TetriminoKind::O => {
            assert(shape_occupied(s, 2, 1));
        },
        TetriminoKind::S => {
            assert(shape_occupied(s, 0, 1));
        },
        TetriminoKind::T => {
            assert(shape_occupied(s, 0, 1));
        },
        TetriminoKind::Z => {
            assert(shape_occupied(s, 0, 0));
        },
    }
}

/// Dropping the last snapshot lowers the count of its kind by one.
pub proof fn lemma_kind_count_v_drop_last(s: Seq<TetriminoV>)
    requires
        s.len() > 0,
    ensures
        forall|kind: TetriminoKind| #[trigger] kind_count_v(s.drop_last(), kind) == kind_count_v(
            s,
            kind,
        ) - if s.last().kind == kind {
            1nat
        } else {
            0nat
        },
{
}

/// Snapshots count kinds the same way the pieces themselves do.
pub proof fn lemma_kind_count_views(s: Seq<Tetrimino>)
    ensures
        forall|kind: TetriminoKind| #[trigger] kind_count_v(bag_views(s), kind) == kind_count(
            s,
            kind,
        ),
    decreases s.len(),
{
    if s.len() > 0 {
        lemma_kind_count_views(s.drop_last());
        assert(bag_views(s).drop_last() =~= bag_views(s.drop_last()));
        assert forall|kind: TetriminoKind| #[trigger] kind_count_v(bag_views(s), kind)
            == kind_count(s, kind) by {
            assert(bag_views(s).last() == s.last()@);
            assert(kind_count_v(bag_views(s.drop_last()), kind) == kind_count(s.drop_last(), kind));
        }
    } else {
        assert(bag_views(s) =~= Seq::<TetriminoV>::empty());
    }
}

/// A full bag of pieces views as a full bag of snapshots.
pub proof fn lemma_full_bag_views(s: Seq<Tetrimino>)
    requires
        is_full_bag(s),
    ensures
        full_bag_v(bag_views(s)),
{
    lemma_kind_count_views(s);
    assert forall|i: int| 0 <= i < bag_views(s).len() implies #[trigger] canonical_v(
        bag_views(s)[i],
    ) by {
        assert(is_canonical(s[i]));
    }
}

/// A legal placement of a reachable mask keeps the anchor within the walls
/// and above the floor.
pub proof fn lemma_legal_anchor_bounds(sh: Seq<u8>, w: Seq<u8>, row: int, col: int)
    requires
        exists|r: int, c: int| 0 <= r < 4 && 0 <= c < 4 && #[trigger] shape_occupied(sh, r, c),
        !placement_collides(sh, w, row, col),
    ensures
        row <= 23,
        -3 <= col <= 9,
{
    let (r, c): (int, int) = choose|r: int, c: int|
        0 <= r < 4 && 0 <= c < 4 && #[trigger] shape_occupied(sh, r, c);
    assert(!cell_blocked(w, row + r, col + c));
}

/// Where the floor scan ends up: at or below the start, never past the scan
/// limit, on a blocked row if it found one, with only free rows before it.
pub proof fn lemma_first_blocked_props(sh: Seq<u8>, w: Seq<u8>, r: int, col: int)
    requires
        r <= 24,
    ensures
        r <= first_blocked_row(sh, w, r, col) <= 24,
        first_blocked_row(sh, w, r, col) < 24 ==> placement_collides(
            sh,
            w,
            first_blocked_row(sh, w, r, col),
            col,
        ),
        forall|j: int|
            r <= j < first_blocked_row(sh, w, r, col) ==> !placement_collides(sh, w, j, col),
    decreases 24 - r,
{
    if r < 24 && !placement_collides(sh, w, r, col) {
        lemma_first_blocked_props(sh, w, r + 1, col);
    }
}

/// Gravity preserves the invariant, whatever the tick does, as long as a
/// refill is a full bag whenever the supply has run dry at a lock.
pub proof fn lemma_after_gravity_wf(s: StateV, refill: Seq<TetriminoV>)
    requires
        wf_v(s),
        !s.game_over,
        (gravity_locks(s) && s.bag.len() == 0) ==> full_bag_v(refill),
    ensures
        wf_v(after_gravity(s, refill)),
{
    let t = after_gravity(s, refill);
    if s.fall_counter < FALL_THRESHOLD {
        assert(wf_v(t));
    } else if !placement_collides(s.curr.shape, s.well, s.row + 1, s.col) {
        lemma_legal_anchor_bounds(s.curr.shape, s.well, s.row + 1, s.col);
        assert(wf_v(t));
    } else {
        let bag0 = if s.bag.len() == 0 {
            refill
        } else {
            s.bag
        };
        assert(bag0.len() >= 1);
        assert forall|i: int| 0 <= i < bag0.len() implies tv_wf(#[trigger] bag0[i]) by {
            if s.bag.len() == 0 {
                assert(canonical_v(refill[i]));
                lemma_canonical_shape_wf(refill[i].kind);
            }
        }
        assert(tv_wf(bag0.last()));
        assert forall|i: int| 0 <= i < t.bag.len() implies tv_wf(#[trigger] t.bag[i]) by {
            assert(t.bag[i] == bag0[i]);
        }
        assert(t.well.len() == 240);
        assert(wf_v(t));
    }
}

/// The sideways moves preserve the invariant: a move happens only into a
/// spot that was just tested free.
pub proof fn lemma_after_left_wf(s: StateV)
    requires
        wf_v(s),
    ensures
        wf_v(after_left(s)),
{
    if s.keys.move_left && !placement_collides(s.curr.shape, s.well, s.row, s.col - 1) {
        lemma_legal_anchor_bounds(s.curr.shape, s.well, s.row, s.col - 1);
    }
}

pub proof fn lemma_after_right_wf(s: StateV)
    requires
        wf_v(s),
    ensures
        wf_v(after_right(s)),
{
    if s.keys.move_right && !placement_collides(s.curr.shape, s.well, s.row, s.col + 1) {
        lemma_legal_anchor_bounds(s.curr.shape, s.well, s.row, s.col + 1);
    }
}

pub proof fn lemma_after_soft_wf(s: StateV)
    requires
        wf_v(s),
    ensures
        wf_v(after_soft(s)),
{
    if s.keys.soft_drop && !placement_collides(s.curr.shape, s.well, s.row + 1, s.col) {
        lemma_legal_anchor_bounds(s.curr.shape, s.well, s.row + 1, s.col);
    }
}

/// The hard drop preserves the invariant: while the game runs the scan
/// starts on a free row, so the landing row just above the first blocked one
/// is free too.
pub proof fn lemma_after_hard_wf(s: StateV)
    requires
        wf_v(s),
    ensures
        wf_v(after_hard(s)),
{
    if !s.game_over && s.keys.hard_drop {
        let fb = first_blocked_row(s.curr.shape, s.well, s.row, s.col);
        lemma_first_blocked_props(s.curr.shape, s.well, s.row, s.col);
        if fb < 24 {
            assert(fb > s.row);
            assert(!placement_collides(s.curr.shape, s.well, fb - 1, s.col));
        }
    }
}

/// The rotation commands preserve the invariant: a turned mask is kept only
/// where it fits, and a revert restores the original mask exactly.
pub proof fn lemma_after_rotate_wf(s: StateV, clockwise: bool)
    requires
        wf_v(s),
    ensures
        wf_v(after_rotate(s, clockwise)),
{
    let key = if clockwise {
        s.keys.rotate_cw
    } else {
        s.keys.rotate_ccw
    };
    if key {
        let turned = rotated_shape(s.curr.kind, s.curr.shape, clockwise);
        crate::tetrimino::lemma_rotated_shape_wf(s.curr.kind, s.curr.shape, clockwise);
        if placement_collides(turned, s.well, s.row, s.col) {
            crate::tetrimino::lemma_rotate_revert(s.curr.kind, s.curr.shape, clockwise);
        }
    }
}

/// The gravity phase: counts toward the threshold, then drops the piece one
/// row or locks it. Returns the snapshot of the bag that refilled the
/// supply, which only matters when a lock found the bag empty.
fn apply_gravity(gs: &mut GameState) -> (refill: Ghost<Seq<TetriminoV>>)
    requires
        wf_v(old(gs)@),
        !old(gs).game_over,
    ensures
        final(gs)@ =~= after_gravity(old(gs)@, refill@),
        (gravity_locks(old(gs)@) && old(gs)@.bag.len() == 0) ==> full_bag_v(refill@),
{
    let ghost s0 = gs@;
    let ghost mut refill_bag: Seq<TetriminoV> = Seq::empty();
    if gs.fall_counter < FALL_THRESHOLD {
        gs.fall_counter = gs.fall_counter + 1;
    } else {
        gs.fall_counter = 0;
        if would_collide(&gs.curr_ttmo, &gs.well, gs.ttmo_row + 1, gs.ttmo_col) {
            proof {
                // the current placement is legal, so every occupied cell sits
                // inside the grid and freezing is safe
                assert forall|r: int, c: int|
                    0 <= r < 4 && 0 <= c < 4 && #[trigger] shape_occupied(
                        s0.curr.shape,
                        r,
                        c,
                    ) implies 0 <= s0.row + r <= 23 && 0 <= s0.col + c <= 9 by {
                    assert(!cell_blocked(s0.well, s0.row + r, s0.col + c));
                }
                assert(placement_inside(s0.curr.shape, s0.row, s0.col));
            }
            freeze_to_well(&gs.curr_ttmo, &mut gs.well, gs.ttmo_row, gs.ttmo_col);
            let cleaned = clear_complete_rows(&gs.well);
            gs.well = cleaned;
            if gs.ttmo_bag.len() == 0 {
                let fresh = create_random_bag();
                proof {
                    refill_bag = bag_views(fresh@);
                    lemma_full_bag_views(fresh@);
                }
                gs.ttmo_bag = fresh;
            }
            let ghost bag0 = bag_views(gs.ttmo_bag@);
            proof {
                assert(bag0 == if s0.bag.len() == 0 {
                    refill_bag
                } else {
                    s0.bag
                });
            }
            gs.curr_ttmo = gs.next_ttmo;
            let drawn = gs.ttmo_bag.pop();
            gs.next_ttmo = drawn.unwrap();
            gs.ttmo_row = SPAWN_ROW;
            gs.ttmo_col = SPAWN_COL;
            if would_collide(&gs.curr_ttmo, &gs.well, SPAWN_ROW, SPAWN_COL) {
                gs.game_over = true;
            }
            proof {
                assert(bag_views(gs.ttmo_bag@) =~= bag0.drop_last());
                assert(gs.next_ttmo@ == bag0.last());
                assert(gs@ =~= after_gravity(s0, refill_bag));
            }
        } else {
            gs.ttmo_row = gs.ttmo_row + 1;
        }
    }
    Ghost(refill_bag)
}

/// The move-left command phase.
fn apply_move_left(gs: &mut GameState)
    requires
        -1000 <= old(gs).ttmo_col <= 1000,
    ensures
        final(gs)@ =~= after_left(old(gs)@),
{
    if gs.key_map.move_left && !would_collide(&gs.curr_ttmo, &gs.well, gs.ttmo_row, gs.ttmo_col - 1) {
        gs.ttmo_col = gs.ttmo_col - 1;
    }
}

/// The move-right command phase.
fn apply_move_right(gs: &mut GameState)
    requires
        -1000 <= old(gs).ttmo_col <= 1000,
    ensures
        final(gs)@ =~= after_right(old(gs)@),
{
    if gs.key_map.move_right && !would_collide(&gs.curr_ttmo, &gs.well, gs.ttmo_row, gs.ttmo_col + 1) {
        gs.ttmo_col = gs.ttmo_col + 1;
    }
}

/// The soft-drop command phase.
fn apply_soft_drop(gs: &mut GameState)
    requires
        -1000 <= old(gs).ttmo_row <= 1000,
    ensures
        final(gs)@ =~= after_soft(old(gs)@),
{
    if gs.key_map.soft_drop && !would_collide(&gs.curr_ttmo, &gs.well, gs.ttmo_row + 1, gs.ttmo_col) {
        gs.ttmo_row = gs.ttmo_row + 1;
    }
}

/// The hard-drop command phase: scan downward for the first blocked row and
/// snap the piece to the row just above it.
fn apply_hard_drop(gs: &mut GameState)
    requires
        -1000 <= old(gs).ttmo_row <= 24,
    ensures
        final(gs)@ =~= after_hard(old(gs)@),
{
    if gs.key_map.hard_drop {
        let ghost sh = gs.curr_ttmo.shape@;
        let ghost w = gs.well@;
        let ghost start = gs.ttmo_row as int;
        let mut rr: i32 = gs.ttmo_row;
        let mut found = false;
        while !found && rr < 24
            invariant
                sh == gs.curr_ttmo.shape@,
                w == gs.well@,
                start == gs.ttmo_row as int,
                start <= rr <= 24,
                found ==> rr < 24 && first_blocked_row(sh, w, start, gs.ttmo_col as int)
                    == rr,
                !found ==> first_blocked_row(sh, w, start, gs.ttmo_col as int)
                    == first_blocked_row(sh, w, rr as int, gs.ttmo_col as int),
            decreases 24 - rr + (if found { 0int } else { 1int }),
        {
            if would_collide(&gs.curr_ttmo, &gs.well, rr, gs.ttmo_col) {
                found = true;
            } else {
                rr = rr + 1;
            }
        }
        if found {
            gs.ttmo_row = rr - 1;
        }
    }
}

/// A rotation command phase: turn, test, and turn back on a misfit.
fn apply_rotation(gs: &mut GameState, clockwise: bool)
    ensures
        final(gs)@ =~= after_rotate(old(gs)@, clockwise),
{
    let key = if clockwise {
        gs.key_map.rotate_cw
    } else {
        gs.key_map.rotate_ccw
    };
    if key {
        let mut piece = gs.curr_ttmo;
        rotate_tetrimino(&mut piece, clockwise);
        if would_collide(&piece, &gs.well, gs.ttmo_row, gs.ttmo_col) {
            rotate_tetrimino(&mut piece, !clockwise);
        }
        gs.curr_ttmo = piece;
    }
}

/// Advances the game by one tick. When the game is already over nothing
/// moves at all. Otherwise the tick performs gravity — possibly locking the
/// piece, clearing rows, and spawning — then the latched commands in their
/// fixed order, and finally clears every command flag. When a lock finds the
/// bag empty the new supply is a fresh full bag in some order; every other
/// step of the tick is a function of the old state alone.
#[verifier::rlimit(100)]
pub fn game_update(game_state: &mut GameState)
    requires
        wf_v(old(game_state)@),
    ensures
        wf_v(final(game_state)@),
        old(game_state).game_over ==> *final(game_state) == *old(game_state),
        (!old(game_state).game_over && !(gravity_locks(old(game_state)@) && old(
            game_state,
        )@.bag.len() == 0)) ==> (forall|refill: Seq<TetriminoV>|
            final(game_state)@ == #[trigger] tick(old(game_state)@, refill)),
        (!old(game_state).game_over && gravity_locks(old(game_state)@) && old(
            game_state,
        )@.bag.len() == 0) ==> (exists|refill: Seq<TetriminoV>|
            #[trigger] full_bag_v(refill) && final(game_state)@ == tick(old(game_state)@, refill)),
{
    if game_state.game_over {
        return ;
    }
    let ghost s0 = game_state@;
    let refill_token = apply_gravity(game_state);
    let ghost refill = refill_token@;
    let ghost s1 = after_gravity(s0, refill);
    proof {
        lemma_after_gravity_wf(s0, refill);
        assert(-3 <= s1.col <= 9 && 0 <= s1.row <= 24);
    }
    apply_move_left(game_state);
    let ghost s2 = after_left(s1);
    proof {
        lemma_after_left_wf(s1);
        assert(-4 <= s2.col <= 9);
    }
    apply_move_right(game_state);
    let ghost s3 = after_right(s2);
    proof {
        lemma_after_right_wf(s2);
        assert(-4 <= s3.col <= 10 && 0 <= s3.row <= 24);
    }
    apply_soft_drop(game_state);
    let ghost s4 = after_soft(s3);
    proof {
        lemma_after_soft_wf(s3);
        assert(0 <= s4.row <= 24) by {
            if s3.keys.soft_drop && !placement_collides(s3.curr.shape, s3.well, s3.row + 1, s3.col) {
                lemma_legal_anchor_bounds(s3.curr.shape, s3.well, s3.row + 1, s3.col);
            }
        }
    }
    apply_hard_drop(game_state);
    let ghost s5 = after_hard(s4);
    proof {
        lemma_after_hard_wf(s4);
    }
    apply_rotation(game_state, false);
    let ghost s6 = after_rotate(s5, false);
    proof {
        lemma_after_rotate_wf(s5, false);
    }
    apply_rotation(game_state, true);
    let ghost s7 = after_rotate(s6, true);
    proof {
        lemma_after_rotate_wf(s6, true);
    }
    game_state.key_map = Keys::none();
    proof {
        assert(game_state@ =~= after_clear_keys(s7));
        assert(game_state@ == tick(s0, refill));
        if !(gravity_locks(s0) && s0.bag.len() == 0) {
            assert forall|rf: Seq<TetriminoV>| game_state@ == #[trigger] tick(s0, rf) by {
                assert(after_gravity(s0, rf) =~= after_gravity(s0, refill));
            }
        }
    }
}

impl GameState {
    /// The starting state: an empty well, a freshly shuffled bag with the
    /// first two pieces drawn as current and next, the piece at the spawn
    /// anchor, the gravity counter at zero, and no commands latched.
    pub fn new() -> (gs: GameState)
        ensures
            wf_v(gs@),
            !gs.game_over,
            gs.fall_counter == 0,
            forall|i: int| 0 <= i < 240 ==> gs@.well[i] == 0,
            gs@.row == SPAWN_ROW as int && gs@.col == SPAWN_COL as int,
            gs.key_map == no_keys(),
            gs@.bag.len() == 5,
            forall|kind: TetriminoKind| #[trigger] supply_count(gs@, kind) == 1,
            canonical_v(gs@.curr) && canonical_v(gs@.next),
            forall|i: int| 0 <= i < gs@.bag.len() ==> #[trigger] canonical_v(gs@.bag[i]),
    {
        let mut bag = create_random_bag();
        let ghost full = bag_views(bag@);
        proof {
            lemma_full_bag_views(bag@);
        }
        let first = bag.pop().unwrap();
        let second = bag.pop().unwrap();
        let gs = GameState {
            game_over: false,
            fall_counter: 0,
            well: [0u8; 240],
            ttmo_bag: bag,
            curr_ttmo: first,
            next_ttmo: second,
            ttmo_row: SPAWN_ROW,
            ttmo_col: SPAWN_COL,
            key_map: Keys::none(),
        };
        proof {
            assert(gs@.bag =~= full.drop_last().drop_last());
            lemma_kind_count_v_drop_last(full);
            lemma_kind_count_v_drop_last(full.drop_last());
            assert(gs@.curr == full.last());
            assert(gs@.next == full.drop_last().last());
            assert forall|kind: TetriminoKind| #[trigger] supply_count(gs@, kind) == 1 by {
                assert(kind_count_v(full, kind) == 1);
            }
            assert forall|i: int| 0 <= i < gs@.bag.len() implies tv_wf(#[trigger] gs@.bag[i]) by {
                assert(canonical_v(full[i]));
                lemma_canonical_shape_wf(gs@.bag[i].kind);
            }
            assert(canonical_v(gs@.curr) && canonical_v(gs@.next));
            lemma_canonical_shape_wf(gs@.curr.kind);
            lemma_canonical_shape_wf(gs@.next.kind);
            assert(!placement_collides(gs@.curr.shape, gs@.well, SPAWN_ROW as int, SPAWN_COL as int))
                by {
                assert forall|r: int, c: int|
                    !(0 <= r < 4 && 0 <= c < 4 && #[trigger] shape_occupied(gs@.curr.shape, r, c)
                        && cell_blocked(gs@.well, SPAWN_ROW + r, SPAWN_COL + c)) by {
                    if 0 <= r < 4 && 0 <= c < 4 {
                        assert(gs@.well[(SPAWN_ROW + r) * 10 + SPAWN_COL + c] == 0);
                        assert(!cell_blocked(gs@.well, SPAWN_ROW + r, SPAWN_COL + c));
                    }
                }
            }
        }
        gs
    }
}

/// How many pieces of the given kind the whole supply holds: the bag plus
/// the current and next pieces together.
pub open spec fn supply_count(s: StateV, kind: TetriminoKind) -> nat {
    kind_count_v(s.bag, kind) + (if s.curr.kind == kind {
        1nat
    } else {
        0nat
    }) + (if s.next.kind == kind {
        1nat
    } else {
        0nat
    })
}

/// One whole tick preserves the invariant.
pub proof fn lemma_tick_wf(s: StateV, refill: Seq<TetriminoV>)
    requires
        wf_v(s),
        !s.game_over,
        (gravity_locks(s) && s.bag.len() == 0) ==> full_bag_v(refill),
    ensures
        wf_v(tick(s, refill)),
{
    let s1 = after_gravity(s, refill);
    lemma_after_gravity_wf(s, refill);
    let s2 = after_left(s1);
    lemma_after_left_wf(s1);
    let s3 = after_right(s2);
    lemma_after_right_wf(s2);
    let s4 = after_soft(s3);
    lemma_after_soft_wf(s3);
    let s5 = after_hard(s4);
    lemma_after_hard_wf(s4);
    let s6 = after_rotate(s5, false);
    lemma_after_rotate_wf(s5, false);
    let s7 = after_rotate(s6, true);
    lemma_after_rotate_wf(s6, true);
}

/// A progress measure for a falling piece: how far the anchor still is from
/// the floor scan limit, weighted so that one gravity fall outweighs a full
/// run of the counter, plus how far the counter still is from its threshold.
pub open spec fn fall_measure(s: StateV) -> int {
    21 * (23 - s.row) + (FALL_THRESHOLD - s.fall_counter)
}

/// While the game runs and soft drop is held, every tick that does not lock
/// the piece strictly shrinks the fall measure, and the measure never goes
/// below zero. A piece under repeated soft drops therefore reaches a locking
/// tick after finitely many ticks.
pub proof fn lemma_soft_drop_progress(s: StateV, refill: Seq<TetriminoV>)
    requires
        wf_v(s),
        !s.game_over,
        s.keys.soft_drop,
        !gravity_locks(s),
    ensures
        0 <= fall_measure(tick(s, refill)) < fall_measure(s),
        !tick(s, refill).game_over,
{
    let s1 = after_gravity(s, refill);
    lemma_after_gravity_wf(s, refill);
    assert(!s1.game_over);
    assert(fall_measure(s1) < fall_measure(s));
    let s2 = after_left(s1);
    lemma_after_left_wf(s1);
    let s3 = after_right(s2);
    lemma_after_right_wf(s2);
    let s4 = after_soft(s3);
    lemma_after_soft_wf(s3);
    assert(s4.row >= s3.row && s4.fall_counter == s3.fall_counter);
    let s5 = after_hard(s4);
    lemma_after_hard_wf(s4);
    assert(s5.row >= s4.row && s5.fall_counter == s4.fall_counter) by {
        if s4.keys.hard_drop {
            lemma_first_blocked_props(s4.curr.shape, s4.well, s4.row, s4.col);
        }
    }
    let s6 = after_rotate(s5, false);
    lemma_after_rotate_wf(s5, false);
    let s7 = after_rotate(s6, true);
    lemma_after_rotate_wf(s6, true);
    let t = tick(s, refill);
    assert(t.row >= s1.row && t.fall_counter == s1.fall_counter && !t.game_over);
    assert(0 <= fall_measure(t)) by {
        assert(wf_v(after_clear_keys(s7)));
    }
}

} // verus!
