//! The playfield model: a fixed 24x10 grid of cells, with collision testing,
//! freezing of locked pieces, and removal of completed rows.

use vstd::prelude::*;
use crate::tetrimino::{shape_cell, shape_occupied, Tetrimino};

verus! {

/// The playfield: 24 rows of 10 columns, stored row-major, with row 0 the
/// top. The cell at row `r`, column `c` lives at index `r * 10 + c`.
/// 0 means empty; any other value means occupied. Only the bottom 20 rows
/// are normally visible; the top rows act as spawn buffer.
pub type Well = [u8; 240];

/// The well cell at row `r`, column `c`.
pub open spec fn well_cell(w: Seq<u8>, r: int, c: int) -> u8 {
    w[r * 10 + c]
}

/// A single occupied piece cell, mapped to well coordinates `(wr, wc)`,
/// cannot rest there: it is outside a wall or the floor, or on an occupied
/// cell. Coordinates above the top row are allowed (spawn buffer) and only
/// collide with already-occupied cells, which cannot exist there.
pub open spec fn cell_blocked(w: Seq<u8>, wr: int, wc: int) -> bool {
    ||| wc < 0
    ||| wc > 9
    ||| wr > 23
    ||| (0 <= wr && well_cell(w, wr, wc) != 0)
}

/// The piece with mask `s`, anchored at `(row, col)`, overlaps a wall, the
/// floor, or an occupied well cell.
pub open spec fn placement_collides(s: Seq<u8>, w: Seq<u8>, row: int, col: int) -> bool {
    exists|r: int, c: int|
        0 <= r < 4 && 0 <= c < 4 && #[trigger] shape_occupied(s, r, c)
            && cell_blocked(w, row + r, col + c)
}

/// Every occupied cell of the mask, anchored at `(row, col)`, lands inside
/// the grid. This is what freezing needs in order to write only real cells.
pub open spec fn placement_inside(s: Seq<u8>, row: int, col: int) -> bool {
    forall|r: int, c: int|
        0 <= r < 4 && 0 <= c < 4 && #[trigger] shape_occupied(s, r, c) ==> 0 <= row + r <= 23
            && 0 <= col + c <= 9
}

/// The well after the piece with mask `s` is written in at `(row, col)`:
/// each occupied piece cell replaces the well cell under it, everything
/// else keeps its old value.
pub open spec fn frozen_cell(s: Seq<u8>, w: Seq<u8>, row: int, col: int, i: int) -> u8 {
    let wr = i / 10;
    let wc = i % 10;
    if row <= wr < row + 4 && col <= wc < col + 4 && shape_occupied(s, wr - row, wc - col) {
        shape_cell(s, wr - row, wc - col)
    } else {
        w[i]
    }
}

pub open spec fn frozen_well(s: Seq<u8>, w: Seq<u8>, row: int, col: int) -> Seq<u8> {
    Seq::new(240, |i: int| frozen_cell(s, w, row, col, i))
}

/// Returns true if the given piece, placed in the given well at the given
/// row and column, would collide with a wall, the floor, or a frozen cell.
pub fn would_collide(ttmo: &Tetrimino, well: &Well, row: i32, col: i32) -> (hit: bool)
    ensures
        hit == placement_collides(ttmo.shape@, well@, row as int, col as int),
{
    let mut r: usize = 0;
    while r < 4
        invariant
            r <= 4,
            forall|pr: int, pc: int|
                0 <= pr < r && 0 <= pc < 4 && #[trigger] shape_occupied(ttmo.shape@, pr, pc)
                    ==> !cell_blocked(well@, row + pr, col + pc),
        decreases 4 - r,
    {
        let mut c: usize = 0;
        while c < 4
            invariant
                r < 4,
                c <= 4,
                forall|pr: int, pc: int|
                    0 <= pr < r && 0 <= pc < 4 && #[trigger] shape_occupied(ttmo.shape@, pr, pc)
                        ==> !cell_blocked(well@, row + pr, col + pc),
                forall|pc: int|
                    0 <= pc < c && #[trigger] shape_occupied(ttmo.shape@, r as int, pc)
                        ==> !cell_blocked(well@, row + r, col + pc),
            decreases 4 - c,
        {
            if ttmo.shape[r * 4 + c] != 0 {
                proof {
                    assert(shape_occupied(ttmo.shape@, r as int, c as int));
                }
                // well coordinates of this piece cell, wide enough to never wrap
                let wr: i64 = row as i64 + r as i64;
                let wc: i64 = col as i64 + c as i64;
                if wc < 0 || wc > 9 || wr > 23 {
                    return true;
                }
                if wr >= 0 {
                    if well[(wr as usize) * 10 + (wc as usize)] != 0 {
                        proof {
                            assert(cell_blocked(well@, row + r, col + c));
                        }
                        return true;
                    }
                }
                proof {
                    assert(!cell_blocked(well@, row + r, col + c));
                }
            } else {
                proof {
                    assert(!shape_occupied(ttmo.shape@, r as int, c as int));
                }
            }
            c = c + 1;
        }
        r = r + 1;
    }
    false
}

/// Writes the piece's occupied cells into the well at the given anchor.
/// The caller must already have checked that the placement lies inside the
/// grid; freezing itself does no collision test and overwrites whatever is
/// under the piece.
pub fn freeze_to_well(ttmo: &Tetrimino, well: &mut Well, row: i32, col: i32)
    requires
        placement_inside(ttmo.shape@, row as int, col as int),
    ensures
        final(well)@ == frozen_well(ttmo.shape@, old(well)@, row as int, col as int),
{
    let ghost w0 = well@;
    let ghost s = ttmo.shape@;
    let mut r: usize = 0;
    while r < 4
        invariant
            r <= 4,
            s == ttmo.shape@,
            placement_inside(s, row as int, col as int),
            well@.len() == 240,
            forall|i: int|
                0 <= i < 240 ==> #[trigger] well@[i] == frozen_partial(s, w0, row as int, col as int, i, r as int, 0),
        decreases 4 - r,
    {
        let mut c: usize = 0;
        while c < 4
            invariant
                r < 4,
                c <= 4,
                s == ttmo.shape@,
                placement_inside(s, row as int, col as int),
                well@.len() == 240,
                forall|i: int|
                    0 <= i < 240 ==> #[trigger] well@[i] == frozen_partial(s, w0, row as int, col as int, i, r as int, c as int),
            decreases 4 - c,
        {
            if ttmo.shape[r * 4 + c] != 0 {
                proof {
                    assert(shape_occupied(s, r as int, c as int));
                }
                let wr: usize = (row + r as i32) as usize;
                let wc: usize = (col + c as i32) as usize;
                let ghost before = well@;
                well[wr * 10 + wc] = ttmo.shape[r * 4 + c];
                proof {
                    let idx = (row + r) * 10 + (col + c);
                    assert(idx / 10 == row + r && idx % 10 == col + c) by (nonlinear_arith)
                        requires
                            0 <= row + r <= 23,
                            0 <= col + c <= 9,
                            idx == (row + r) * 10 + (col + c),
                    ;
                    assert forall|i: int| 0 <= i < 240 implies #[trigger] well@[i]
                        == frozen_partial(s, w0, row as int, col as int, i, r as int, c + 1) by {
                        if i != idx {
                            assert(well@[i] == before[i]);
                            assert(!(i / 10 - row == r && i % 10 - col == c)) by (nonlinear_arith)
                                requires
                                    i != idx,
                                    idx == (row + r) * 10 + (col + c),
                                    0 <= row + r,
                                    0 <= col + c <= 9,
                            ;
                        }
                    }
                }
            } else {
                proof {
                    assert(!shape_occupied(s, r as int, c as int));
                    assert forall|i: int| 0 <= i < 240 implies #[trigger] well@[i]
                        == frozen_partial(s, w0, row as int, col as int, i, r as int, c + 1) by {
                    }
                }
            }
            c = c + 1;
        }
        proof {
            assert forall|i: int| 0 <= i < 240 implies #[trigger] well@[i]
                == frozen_partial(s, w0, row as int, col as int, i, r + 1, 0) by {
            }
        }
        r = r + 1;
    }
    proof {
        assert(well@ =~= frozen_well(s, w0, row as int, col as int));
    }
}

/// Row `r` of the well, as a sequence of 10 cells.
pub open spec fn well_row(w: Seq<u8>, r: int) -> Seq<u8> {
    w.subrange(r * 10, r * 10 + 10)
}

/// Row `r` holds at least one occupied cell.
pub open spec fn row_has_block(w: Seq<u8>, r: int) -> bool {
    exists|c: int| 0 <= c < 10 && #[trigger] well_cell(w, r, c) != 0
}

/// Row `r` holds at least one empty cell.
pub open spec fn row_has_gap(w: Seq<u8>, r: int) -> bool {
    exists|c: int| 0 <= c < 10 && #[trigger] well_cell(w, r, c) == 0
}

/// Row `r` is partially filled: neither empty nor complete. Only such rows
/// survive a clearing pass; full rows are the cleared lines and empty rows
/// carry nothing worth keeping.
pub open spec fn row_partial(w: Seq<u8>, r: int) -> bool {
    row_has_block(w, r) && row_has_gap(w, r)
}

/// The partially filled rows among rows `r..24` of the well, top to bottom.
pub open spec fn kept_rows_from(w: Seq<u8>, r: int) -> Seq<Seq<u8>>
    decreases 24 - r,
{
    if r >= 24 {
        Seq::empty()
    } else if row_partial(w, r) {
        seq![well_row(w, r)] + kept_rows_from(w, r + 1)
    } else {
        kept_rows_from(w, r + 1)
    }
}

/// One cell of a cleared well: the kept rows are packed toward the bottom,
/// in their old order, under a padding of empty rows.
pub open spec fn cleared_cell(kept: Seq<Seq<u8>>, i: int) -> u8 {
    let r = i / 10;
    if r < 24 - kept.len() {
        0
    } else {
        kept[r - (24 - kept.len())][i % 10]
    }
}

/// The well after a clearing pass, from the kept rows of the old well.
pub open spec fn cleared_well(w: Seq<u8>) -> Seq<u8> {
    Seq::new(240, |i: int| cleared_cell(kept_rows_from(w, 0), i))
}

/// There are never more kept rows than rows scanned, and each kept row is
/// a run of 10 cells.
pub proof fn lemma_kept_rows_bounds(w: Seq<u8>, r: int)
    requires
        w.len() == 240,
        0 <= r <= 24,
    ensures
        kept_rows_from(w, r).len() <= 24 - r,
        forall|j: int|
            0 <= j < kept_rows_from(w, r).len() ==> #[trigger] kept_rows_from(w, r)[j].len() == 10,
    decreases 24 - r,
{
    if r < 24 {
        lemma_kept_rows_bounds(w, r + 1);
        let kr = kept_rows_from(w, r);
        let rest = kept_rows_from(w, r + 1);
        assert forall|j: int| 0 <= j < kr.len() implies #[trigger] kr[j].len() == 10 by {
            if row_partial(w, r) {
                if j == 0 {
                    assert(kr[0] == well_row(w, r));
                } else {
                    assert(kr[j] == rest[j - 1]);
                }
            } else {
                assert(kr[j] == rest[j]);
            }
        }
    }
}

/// Clears out the complete rows of the given well: full rows disappear,
/// empty rows carry nothing, and the partial rows are re-packed toward the
/// bottom of a fresh well, keeping their relative order.
pub fn clear_complete_rows(well: &Well) -> (cleaned: Well)
    ensures
        cleaned@ == cleared_well(well@),
{
    let ghost w = well@;
    let mut cleaned: Well = [0u8; 240];
    let mut kcount: usize = 0;  // rows already written at the bottom of `cleaned`
    let mut r: usize = 24;
    while r > 0
        invariant
            r <= 24,
            w == well@,
            cleaned@.len() == 240,
            kcount == kept_rows_from(w, r as int).len(),
            kcount <= 24 - r,
            forall|j: int|
                0 <= j < kcount ==> well_row(cleaned@, 24 - kcount + j) == #[trigger] kept_rows_from(
                    w,
                    r as int,
                )[j],
            forall|i: int| 0 <= i < (24 - kcount) * 10 ==> #[trigger] cleaned@[i] == 0,
        decreases r,
    {
        r = r - 1;
        // scan the row for at least one block and at least one gap
        let mut has_block = false;
        let mut has_gap = false;
        let mut c: usize = 0;
        while c < 10
            invariant
                r < 24,
                c <= 10,
                w == well@,
                has_block == (exists|pc: int| 0 <= pc < c && #[trigger] well_cell(w, r as int, pc) != 0),
                has_gap == (exists|pc: int| 0 <= pc < c && #[trigger] well_cell(w, r as int, pc) == 0),
            decreases 10 - c,
        {
            if well[r * 10 + c] != 0 {
                has_block = true;
            } else {
                has_gap = true;
            }
            proof {
                assert(well_cell(w, r as int, c as int) == w[r * 10 + c]);
            }
            c = c + 1;
        }
        proof {
            assert(has_block == row_has_block(w, r as int));
            assert(has_gap == row_has_gap(w, r as int));
            lemma_kept_rows_bounds(w, r as int);
        }
        if has_block && has_gap {
            // copy the partial row into the lowest free row of the new well
            let dest: usize = 23 - kcount;
            let ghost before = cleaned@;
            let mut c2: usize = 0;
            while c2 < 10
                invariant
                    r < 24,
                    c2 <= 10,
                    dest == 23 - kcount,
                    kcount <= 23,
                    w == well@,
                    cleaned@.len() == 240,
                    forall|i: int|
                        0 <= i < 240 && !(dest * 10 <= i < dest * 10 + c2) ==> #[trigger] cleaned@[i]
                            == before[i],
                    forall|pc: int|
                        0 <= pc < c2 ==> #[trigger] cleaned@[dest * 10 + pc] == w[r * 10 + pc],
                decreases 10 - c2,
            {
                cleaned[dest * 10 + c2] = well[r * 10 + c2];
                c2 = c2 + 1;
            }
            proof {
                let krest = kept_rows_from(w, r + 1);
                let know = kept_rows_from(w, r as int);
                assert(know == seq![well_row(w, r as int)] + krest);
                assert forall|k: int| 0 <= k < 10 implies well_row(cleaned@, dest as int)[k]
                    == well_row(w, r as int)[k] by {
                    assert(cleaned@[dest as int * 10 + k] == w[r as int * 10 + k]);
                }
                assert(well_row(cleaned@, dest as int) =~= well_row(w, r as int));
                assert forall|j: int| 0 <= j < kcount + 1 implies well_row(
                    cleaned@,
                    24 - (kcount + 1) + j,
                ) == #[trigger] know[j] by {
                    if j == 0 {
                        assert(know[0] == well_row(w, r as int));
                    } else {
                        assert(know[j] == krest[j - 1]);
                        assert(well_row(cleaned@, 24 - kcount + (j - 1)) =~= well_row(
                            before,
                            24 - kcount + (j - 1),
                        ));
                    }
                }
                assert forall|i: int| 0 <= i < (24 - (kcount + 1)) * 10 implies #[trigger] cleaned@[i]
                    == 0 by {
                    assert(cleaned@[i] == before[i]);
                }
            }
            kcount = kcount + 1;
        }
    }
    proof {
        let kept = kept_rows_from(w, 0);
        lemma_kept_rows_bounds(w, 0);
        assert forall|i: int| 0 <= i < 240 implies cleaned@[i] == cleared_cell(kept, i) by {
            let row = i / 10;
            assert(0 <= row < 24 && 0 <= i % 10 < 10 && i == row * 10 + i % 10) by (nonlinear_arith)
                requires
                    0 <= i < 240,
                    row == i / 10,
            ;
            if row >= 24 - kcount {
                let j = row - (24 - kcount);
                assert(well_row(cleaned@, row) == kept[j]);
                assert(cleaned@[i] == well_row(cleaned@, row)[i % 10]);
            } else {
                assert(row * 10 + i % 10 < (24 - kcount) * 10) by (nonlinear_arith)
                    requires
                        row < 24 - kcount,
                        0 <= i % 10 < 10,
                ;
            }
        }
        assert(cleaned@ =~= cleared_well(w));
    }
    cleaned
}

/// Any placement that maps an occupied piece cell outside the side walls or
/// below the floor collides, whatever the well holds.
pub proof fn lemma_collides_outside(s: Seq<u8>, w: Seq<u8>, row: int, col: int, r: int, c: int)
    requires
        0 <= r < 4,
        0 <= c < 4,
        shape_occupied(s, r, c),
        col + c < 0 || col + c > 9 || row + r > 23,
    ensures
        placement_collides(s, w, row, col),
{
    assert(cell_blocked(w, row + r, col + c));
}

/// A just-frozen piece makes its own placement illegal: freezing and then
/// testing the same spot reports a collision, since the piece now overlaps
/// its own frozen cells.
pub proof fn lemma_freeze_then_collide(s: Seq<u8>, w: Seq<u8>, row: int, col: int)
    requires
        w.len() == 240,
        placement_inside(s, row, col),
        exists|r: int, c: int| 0 <= r < 4 && 0 <= c < 4 && #[trigger] shape_occupied(s, r, c),
    ensures
        placement_collides(s, frozen_well(s, w, row, col), row, col),
{
    let (r, c): (int, int) = choose|r: int, c: int|
        0 <= r < 4 && 0 <= c < 4 && #[trigger] shape_occupied(s, r, c);
    let wr = row + r;
    let wc = col + c;
    let i = wr * 10 + wc;
    assert(0 <= wr <= 23 && 0 <= wc <= 9);
    assert(i / 10 == wr && i % 10 == wc) by (nonlinear_arith)
        requires
            0 <= wr <= 23,
            0 <= wc <= 9,
            i == wr * 10 + wc,
    ;
    assert(well_cell(frozen_well(s, w, row, col), wr, wc) == shape_cell(s, r, c));
    assert(cell_blocked(frozen_well(s, w, row, col), row + r, col + c));
}

/// The well mid-freeze: piece cells strictly before row `pr`, or in row `pr`
/// before column `pc`, have been written; every other cell keeps its old
/// value.
spec fn frozen_partial(
    s: Seq<u8>,
    w: Seq<u8>,
    row: int,
    col: int,
    i: int,
    pr: int,
    pc: int,
) -> u8 {
    let r = i / 10 - row;
    let c = i % 10 - col;
    if 0 <= r < 4 && 0 <= c < 4 && (r < pr || (r == pr && c < pc)) && shape_occupied(s, r, c) {
        shape_cell(s, r, c)
    } else {
        w[i]
    }
}

} // verus!
