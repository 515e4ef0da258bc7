//! The tetrimino catalog: the seven piece kinds, their canonical colors and
//! 4x4 occupancy masks, and the 90-degree rotation transform.

use vstd::prelude::*;

verus! {

/// The seven standard tetrimino shape families.
#[derive(Clone, Copy, PartialEq, Eq, Structural, Debug)]
pub enum TetriminoKind {
    I,
    J,
    L,
    O,
    S,
    T,
    Z,
}

/// An RGBA color with 8-bit channels. The rendering layer scales the
/// channels to whatever range its graphics backend wants.
#[derive(Clone, Copy, PartialEq, Eq, Structural, Debug)]
pub struct Color {
    pub red: u8,
    pub green: u8,
    pub blue: u8,
    pub alpha: u8,
}

/// A 4x4 occupancy mask stored row-major: the cell at row `r`, column `c`
/// lives at index `r * 4 + c`, with row 0 the top. 0 means empty; any other
/// value means occupied.
pub type Shape = [u8; 16];

/// A piece: its shape family, its color, and its current occupancy mask.
/// The kind and color never change after construction; the mask changes
/// only through rotation.
#[derive(Clone, Copy)]
pub struct Tetrimino {
    pub kind: TetriminoKind,
    pub color: Color,
    pub shape: Shape,
}

/// The mask cell of shape `s` at row `r`, column `c`.
pub open spec fn shape_cell(s: Seq<u8>, r: int, c: int) -> u8 {
    s[r * 4 + c]
}

/// Whether shape `s` has an occupied cell at row `r`, column `c`.
pub open spec fn shape_occupied(s: Seq<u8>, r: int, c: int) -> bool {
    shape_cell(s, r, c) != 0
}

/// The canonical spawn orientation of each kind.
pub open spec fn canonical_shape(kind: TetriminoKind) -> Seq<u8> {
    match kind {
        TetriminoKind::I => seq![
            0u8, 0u8, 1u8, 0u8,
            0u8, 0u8, 1u8, 0u8,
            0u8, 0u8, 1u8, 0u8,
            0u8, 0u8, 1u8, 0u8,
        ],
        TetriminoKind::J => seq![
            1u8, 0u8, 0u8, 0u8,
            1u8, 1u8, 1u8, 0u8,
            0u8, 0u8, 0u8, 0u8,
            0u8, 0u8, 0u8, 0u8,
        ],
        TetriminoKind::L => seq![
            0u8, 0u8, 1u8, 0u8,
            1u8, 1u8, 1u8, 0u8,
            0u8, 0u8, 0u8, 0u8,
            0u8, 0u8, 0u8, 0u8,
        ],
        TetriminoKind::O => seq![
            0u8, 0u8, 0u8, 0u8,
            0u8, 0u8, 0u8, 0u8,
            0u8, 1u8, 1u8, 0u8,
            0u8, 1u8, 1u8, 0u8,
        ],
        TetriminoKind::S => seq![
            0u8, 1u8, 1u8, 0u8,
            1u8, 1u8, 0u8, 0u8,
            0u8, 0u8, 0u8, 0u8,
            0u8, 0u8, 0u8, 0u8,
        ],
        TetriminoKind::T => seq![
            0u8, 1u8, 0u8, 0u8,
            1u8, 1u8, 1u8, 0u8,
            0u8, 0u8, 0u8, 0u8,
            0u8, 0u8, 0u8, 0u8,
        ],
        TetriminoKind::Z => seq![
            1u8, 1u8, 0u8, 0u8,
            0u8, 1u8, 1u8, 0u8,
            0u8, 0u8, 0u8, 0u8,
            0u8, 0u8, 0u8, 0u8,
        ],
    }
}

/// The canonical color of each kind.
pub open spec fn canonical_color(kind: TetriminoKind) -> Color {
    match kind {
        TetriminoKind::I => Color { red: 255, green: 255, blue: 255, alpha: 255 },
        TetriminoKind::J => Color { red: 0, green: 0, blue: 255, alpha: 255 },
        TetriminoKind::L => Color { red: 0, green: 255, blue: 255, alpha: 255 },
        TetriminoKind::O => Color { red: 0, green: 255, blue: 0, alpha: 255 },
        TetriminoKind::S => Color { red: 255, green: 0, blue: 255, alpha: 255 },
        TetriminoKind::T => Color { red: 255, green: 255, blue: 0, alpha: 255 },
        TetriminoKind::Z => Color { red: 255, green: 0, blue: 0, alpha: 255 },
    }
}

/// A piece fresh out of the catalog: canonical color and spawn orientation.
pub open spec fn is_canonical(t: Tetrimino) -> bool {
    &&& t.color == canonical_color(t.kind)
    &&& t.shape@ == canonical_shape(t.kind)
}

impl Tetrimino {
    /// The catalog factory: the one canonical piece of the given kind.
    pub fn new(kind: TetriminoKind) -> (t: Tetrimino)
        ensures
            t.kind == kind,
            is_canonical(t),
    {
        let mut shape: Shape = [0u8; 16];
        match kind {
            TetriminoKind::I => {
                shape[2] = 1;
                shape[6] = 1;
                shape[10] = 1;
                shape[14] = 1;
            },
            TetriminoKind::J => {
                shape[0] = 1;
                shape[4] = 1;
                shape[5] = 1;
                shape[6] = 1;
            },
            TetriminoKind::L => {
                shape[2] = 1;
                shape[4] = 1;
                shape[5] = 1;
                shape[6] = 1;
            },
            TetriminoKind::O => {
                shape[9] = 1;
                shape[10] = 1;
                shape[13] = 1;
                shape[14] = 1;
            },
            TetriminoKind::S => {
                shape[1] = 1;
                shape[2] = 1;
                shape[4] = 1;
                shape[5] = 1;
            },
            TetriminoKind::T => {
                shape[1] = 1;
                shape[4] = 1;
                shape[5] = 1;
                shape[6] = 1;
            },
            TetriminoKind::Z => {
                shape[0] = 1;
                shape[1] = 1;
                shape[5] = 1;
                shape[6] = 1;
            },
        }
        proof {
            assert(shape@ =~= canonical_shape(kind));
        }
        Tetrimino { kind, color: catalog_color(kind), shape }
    }
}

/// The side of the square submatrix that rotation turns: the I kind uses the
/// whole 4x4 mask, every other kind only the top-left 3x3 block.
pub open spec fn rotation_size(kind: TetriminoKind) -> int {
    if kind == TetriminoKind::I {
        4
    } else {
        3
    }
}

/// One cell of a rotated mask. Inside the turned submatrix a clockwise turn
/// takes the cell at `(n-1-c, r)` of the source to `(r, c)`; counter-clockwise
/// takes `(c, n-1-r)` there. Outside the submatrix the result is empty.
pub open spec fn rotated_cell(n: int, s: Seq<u8>, clockwise: bool, i: int) -> u8 {
    let r = i / 4;
    let c = i % 4;
    if r < n && c < n {
        if clockwise {
            shape_cell(s, n - 1 - c, r)
        } else {
            shape_cell(s, c, n - 1 - r)
        }
    } else {
        0
    }
}

/// The mask of a piece of the given kind after one 90-degree turn.
/// The O kind is a fixed point: its mask is already symmetric.
pub open spec fn rotated_shape(kind: TetriminoKind, s: Seq<u8>, clockwise: bool) -> Seq<u8> {
    if kind == TetriminoKind::O {
        s
    } else {
        Seq::new(16, |i: int| rotated_cell(rotation_size(kind), s, clockwise, i))
    }
}

/// Every mask a piece can reach: 16 cells, at least one occupied, and for the
/// kinds that rotate only a 3x3 block, row 3 and column 3 stay empty padding.
pub open spec fn shape_wf(kind: TetriminoKind, s: Seq<u8>) -> bool {
    &&& s.len() == 16
    &&& exists|r: int, c: int| 0 <= r < 4 && 0 <= c < 4 && #[trigger] shape_occupied(s, r, c)
    &&& (kind != TetriminoKind::I && kind != TetriminoKind::O) ==> (forall|i: int|
        0 <= i < 4 ==> #[trigger] shape_cell(s, 3, i) == 0)
    &&& (kind != TetriminoKind::I && kind != TetriminoKind::O) ==> (forall|i: int|
        0 <= i < 4 ==> #[trigger] shape_cell(s, i, 3) == 0)
}

/// Reading a rotated mask cell-wise: the turn moves cells exactly as
/// `rotated_cell` says, for coordinates instead of flat indices.
pub proof fn lemma_rotated_shape_cell(kind: TetriminoKind, s: Seq<u8>, clockwise: bool, r: int, c: int)
    requires
        0 <= r < 4,
        0 <= c < 4,
    ensures
        kind != TetriminoKind::O ==> shape_cell(rotated_shape(kind, s, clockwise), r, c) == (
        if r < rotation_size(kind) && c < rotation_size(kind) {
            if clockwise {
                shape_cell(s, rotation_size(kind) - 1 - c, r)
            } else {
                shape_cell(s, c, rotation_size(kind) - 1 - r)
            }
        } else {
            0u8
        }),
        kind == TetriminoKind::O ==> shape_cell(rotated_shape(kind, s, clockwise), r, c)
            == shape_cell(s, r, c),
{
    assert((r * 4 + c) / 4 == r && (r * 4 + c) % 4 == c) by (nonlinear_arith)
        requires
            0 <= r < 4,
            0 <= c < 4,
    ;
}

/// Rotating a well-formed mask keeps it well-formed: the turn permutes the
/// occupied cells inside the submatrix and leaves the padding empty.
pub proof fn lemma_rotated_shape_wf(kind: TetriminoKind, s: Seq<u8>, clockwise: bool)
    requires
        shape_wf(kind, s),
    ensures
        shape_wf(kind, rotated_shape(kind, s, clockwise)),
{
    let n = rotation_size(kind);
    let t = rotated_shape(kind, s, clockwise);
    if kind != TetriminoKind::O {
        let (r0, c0): (int, int) = choose|r0: int, c0: int|
            0 <= r0 < 4 && 0 <= c0 < 4 && #[trigger] shape_occupied(s, r0, c0);
        if kind != TetriminoKind::I {
            // the padding of the source is empty, so the occupied cell sits in the 3x3 block
            assert(shape_cell(s, 3, c0) == 0);
            assert(shape_cell(s, r0, 3) == 0);
            assert(r0 < 3 && c0 < 3);
        }
        // the image of the occupied cell under the turn
        let (r1, c1) = if clockwise { (c0, n - 1 - r0) } else { (n - 1 - c0, r0) };
        lemma_rotated_shape_cell(kind, s, clockwise, r1, c1);
        assert(shape_occupied(t, r1, c1));
        if kind != TetriminoKind::I {
            assert forall|i: int| 0 <= i < 4 implies #[trigger] shape_cell(t, 3, i) == 0
                && #[trigger] shape_cell(t, i, 3) == 0 by {
                lemma_rotated_shape_cell(kind, s, clockwise, 3, i);
                lemma_rotated_shape_cell(kind, s, clockwise, i, 3);
            }
        }
    }
}

/// Turning one way and then the other restores the original mask exactly,
/// as long as the mask is one the piece can reach.
pub proof fn lemma_rotate_revert(kind: TetriminoKind, s: Seq<u8>, clockwise: bool)
    requires
        shape_wf(kind, s),
    ensures
        rotated_shape(kind, rotated_shape(kind, s, clockwise), !clockwise) == s,
{
    let n = rotation_size(kind);
    let s1 = rotated_shape(kind, s, clockwise);
    let s2 = rotated_shape(kind, s1, !clockwise);
    if kind != TetriminoKind::O {
        assert forall|r: int, c: int| 0 <= r < 4 && 0 <= c < 4 implies #[trigger] shape_cell(
            s2,
            r,
            c,
        ) == shape_cell(s, r, c) by {
            lemma_rotated_shape_cell(kind, s1, !clockwise, r, c);
            if r < n && c < n {
                if clockwise {
                    lemma_rotated_shape_cell(kind, s, clockwise, c, n - 1 - r);
                } else {
                    lemma_rotated_shape_cell(kind, s, clockwise, n - 1 - c, r);
                }
            } else {
                // outside the submatrix the mask holds padding zeros
                if r >= n {
                    assert(shape_cell(s, 3, c) == 0);
                } else {
                    assert(shape_cell(s, r, 3) == 0);
                }
            }
        }
        assert forall|i: int| 0 <= i < 16 implies s2[i] == s[i] by {
            assert(0 <= i / 4 < 4 && 0 <= i % 4 < 4 && i == (i / 4) * 4 + i % 4) by (nonlinear_arith)
                requires
                    0 <= i < 16,
            ;
            assert(shape_cell(s2, i / 4, i % 4) == shape_cell(s, i / 4, i % 4));
        }
        assert(s2 =~= s);
    }
}

/// Four quarter turns in the same direction are the identity on any mask a
/// piece can reach.
#[verifier::rlimit(50)]
pub proof fn lemma_rotate_four_times(kind: TetriminoKind, s: Seq<u8>, clockwise: bool)
    requires
        shape_wf(kind, s),
    ensures
        rotated_shape(
            kind,
            rotated_shape(kind, rotated_shape(kind, rotated_shape(kind, s, clockwise), clockwise), clockwise),
            clockwise,
        ) == s,
{
    let n = rotation_size(kind);
    let s1 = rotated_shape(kind, s, clockwise);
    let s2 = rotated_shape(kind, s1, clockwise);
    let s3 = rotated_shape(kind, s2, clockwise);
    let s4 = rotated_shape(kind, s3, clockwise);
    if kind != TetriminoKind::O {
        assert forall|r: int, c: int| 0 <= r < 4 && 0 <= c < 4 implies #[trigger] shape_cell(
            s4,
            r,
            c,
        ) == shape_cell(s, r, c) by {
            lemma_rotated_shape_cell(kind, s3, clockwise, r, c);
            if r < n && c < n {
                lemma_rotated_shape_cell(kind, s2, clockwise, n - 1 - c, r);
                lemma_rotated_shape_cell(kind, s1, clockwise, n - 1 - r, n - 1 - c);
                lemma_rotated_shape_cell(kind, s, clockwise, c, n - 1 - r);
            } else {
                if r >= n {
                    assert(shape_cell(s, 3, c) == 0);
                } else {
                    assert(shape_cell(s, r, 3) == 0);
                }
            }
        }
        assert forall|i: int| 0 <= i < 16 implies s4[i] == s[i] by {
            assert(0 <= i / 4 < 4 && 0 <= i % 4 < 4 && i == (i / 4) * 4 + i % 4) by (nonlinear_arith)
                requires
                    0 <= i < 16,
            ;
            assert(shape_cell(s4, i / 4, i % 4) == shape_cell(s, i / 4, i % 4));
        }
        assert(s4 =~= s);
    }
}

/// The O kind is invariant under rotation in either direction.
pub proof fn lemma_rotate_o_fixed(s: Seq<u8>, clockwise: bool)
    ensures
        rotated_shape(TetriminoKind::O, s, clockwise) == s,
{
}

/// Rotates the given piece by 90 degrees, clockwise or counter-clockwise.
/// Rotation never checks collision; the caller tests the result and reverts
/// if the turned piece does not fit.
pub fn rotate_tetrimino(ttmo: &mut Tetrimino, clockwise: bool)
    ensures
        final(ttmo).kind == old(ttmo).kind,
        final(ttmo).color == old(ttmo).color,
        final(ttmo).shape@ == rotated_shape(old(ttmo).kind, old(ttmo).shape@, clockwise),
{
    // Rotating the O tetrimino is pointless.
    if ttmo.kind == TetriminoKind::O {
        return ;
    }
    let n: usize = if ttmo.kind == TetriminoKind::I {
        4
    } else {
        3
    };
    let source = ttmo.shape;
    let mut rotated: Shape = [0u8; 16];
    let mut i: usize = 0;
    while i < 16
        invariant
            0 <= i <= 16,
            n == rotation_size(ttmo.kind),
            ttmo.kind != TetriminoKind::O,
            source@ == ttmo.shape@,
            forall|j: int| 0 <= j < i ==> rotated@[j] == rotated_cell(n as int, source@, clockwise, j),
            forall|j: int| i <= j < 16 ==> rotated@[j] == 0,
        decreases 16 - i,
    {
        let r = i / 4;
        let c = i % 4;
        if r < n && c < n {
            if clockwise {
                rotated[i] = source[(n - 1 - c) * 4 + r];
            } else {
                rotated[i] = source[c * 4 + (n - 1 - r)];
            }
        }
        i = i + 1;
    }
    proof {
        assert(rotated@ =~= rotated_shape(ttmo.kind, source@, clockwise));
    }
    ttmo.shape = rotated;
}

/// The canonical color of the given kind, as a runtime value.
pub fn catalog_color(kind: TetriminoKind) -> (c: Color)
    ensures
        c == canonical_color(kind),
{
    match kind {
        TetriminoKind::I => Color { red: 255, green: 255, blue: 255, alpha: 255 },
        TetriminoKind::J => Color { red: 0, green: 0, blue: 255, alpha: 255 },
        TetriminoKind::L => Color { red: 0, green: 255, blue: 255, alpha: 255 },
        TetriminoKind::O => Color { red: 0, green: 255, blue: 0, alpha: 255 },
        TetriminoKind::S => Color { red: 255, green: 0, blue: 255, alpha: 255 },
        TetriminoKind::T => Color { red: 255, green: 255, blue: 0, alpha: 255 },
        TetriminoKind::Z => Color { red: 255, green: 0, blue: 0, alpha: 255 },
    }
}

} // verus!
