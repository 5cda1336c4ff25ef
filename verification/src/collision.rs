//! Pairwise overlap test over two positioned shape masks.
//!
//! Two positioned masks overlap iff some absolute grid cell carries a solid
//! glyph of both.  The test scans every cell of the first mask and looks the
//! translated coordinate up in the second; masks are small constant-size
//! sprites, so the quadratic cost is acceptable and no broad phase is used.

use vstd::prelude::*;
use crate::shape::{covers, mask_wf, solid, ShapeMask};

verus! {

/// Bound on the magnitude of mask origins the collision test accepts; keeps
/// the translated coordinates far away from machine limits.
pub const MAX_COORD: i64 = 0x1000_0000;

/// Whether mask `a` placed at `(ax, ay)` and mask `b` placed at `(bx, by)`
/// put solid glyphs on a common absolute grid cell.
pub open spec fn masks_overlap(
    a: Seq<Seq<char>>,
    ax: int,
    ay: int,
    b: Seq<Seq<char>>,
    bx: int,
    by: int,
) -> bool {
    exists|gx: int, gy: int|
        #[trigger] covers(a, ax, ay, gx, gy) && #[trigger] covers(b, bx, by, gx, gy)
}

/// Overlap test on signed cell coordinates.
pub fn collide_at(a: &ShapeMask, ax: i64, ay: i64, b: &ShapeMask, bx: i64, by: i64) -> (r: bool)
    requires
        a.wf(),
        b.wf(),
        -MAX_COORD <= ax <= MAX_COORD,
        -MAX_COORD <= ay <= MAX_COORD,
        -MAX_COORD <= bx <= MAX_COORD,
        -MAX_COORD <= by <= MAX_COORD,
    ensures
        r == masks_overlap(a@, ax as int, ay as int, b@, bx as int, by as int),
{
    let ah = a.height();
    let aw = a.width();
    let bh = b.height();
    let bw = b.width();
    let mut row: usize = 0;
    while row < ah
        invariant
            a.wf(),
            b.wf(),
            ah == a@.len(),
            aw == a@[0].len(),
            bh == b@.len(),
            bw == b@[0].len(),
            row <= ah,
            -MAX_COORD <= ax <= MAX_COORD,
            -MAX_COORD <= ay <= MAX_COORD,
            -MAX_COORD <= bx <= MAX_COORD,
            -MAX_COORD <= by <= MAX_COORD,
            forall|gx: int, gy: int|
                #[trigger] covers(a@, ax as int, ay as int, gx, gy) && gy - ay < row
                    ==> !covers(b@, bx as int, by as int, gx, gy),
        decreases ah - row,
    {
        let mut col: usize = 0;
        while col < aw
            invariant
                a.wf(),
                b.wf(),
                ah == a@.len(),
                aw == a@[0].len(),
                bh == b@.len(),
                bw == b@[0].len(),
                row < ah,
                col <= aw,
                -MAX_COORD <= ax <= MAX_COORD,
                -MAX_COORD <= ay <= MAX_COORD,
                -MAX_COORD <= bx <= MAX_COORD,
                -MAX_COORD <= by <= MAX_COORD,
                forall|gx: int, gy: int|
                    #[trigger] covers(a@, ax as int, ay as int, gx, gy)
                        && (gy - ay < row || (gy - ay == row && gx - ax < col))
                        ==> !covers(b@, bx as int, by as int, gx, gy),
            decreases aw - col,
        {
            assert(a@[row as int].len() == aw);
            if a.is_solid(row, col) {
                let gx: i64 = ax + col as i64;
                let gy: i64 = ay + row as i64;
                let br: i64 = gy - by;
                let bc: i64 = gx - bx;
                if 0 <= br && br < bh as i64 && 0 <= bc && bc < bw as i64 {
                    assert(b@[br as int].len() == bw);
                    if b.is_solid(br as usize, bc as usize) {
                        assert(covers(a@, ax as int, ay as int, gx as int, gy as int));
                        assert(covers(b@, bx as int, by as int, gx as int, gy as int));
                        return true;
                    }
                }
                assert(!covers(b@, bx as int, by as int, gx as int, gy as int));
            }
            col = col + 1;
        }
        row = row + 1;
    }
    assert(!masks_overlap(a@, ax as int, ay as int, b@, bx as int, by as int)) by {
        if masks_overlap(a@, ax as int, ay as int, b@, bx as int, by as int) {
            let (gx, gy) = choose|gx: int, gy: int|
                #[trigger] covers(a@, ax as int, ay as int, gx, gy)
                    && #[trigger] covers(b@, bx as int, by as int, gx, gy);
            assert(gy - ay < ah);
        }
    }
    false
}

/// Overlap test on unsigned cell positions, as entity updates use it:
/// true iff any solid cell of `a` translated by `pos_a` coincides in
/// absolute grid coordinates with any solid cell of `b` translated by
/// `pos_b`.
pub fn shapes_collide(
    a: &ShapeMask,
    pos_a: (usize, usize),
    b: &ShapeMask,
    pos_b: (usize, usize),
) -> (r: bool)
    requires
        a.wf(),
        b.wf(),
        pos_a.0 <= MAX_COORD,
        pos_a.1 <= MAX_COORD,
        pos_b.0 <= MAX_COORD,
        pos_b.1 <= MAX_COORD,
    ensures
        r == masks_overlap(a@, pos_a.0 as int, pos_a.1 as int, b@, pos_b.0 as int, pos_b.1 as int),
{
    collide_at(a, pos_a.0 as i64, pos_a.1 as i64, b, pos_b.0 as i64, pos_b.1 as i64)
}

/// Whether mask `m` placed at `(ox, oy)` puts a solid glyph on the single
/// absolute grid cell `(gx, gy)`; the overlap test of a 1-by-1 mask.
pub fn covers_point(m: &ShapeMask, ox: i64, oy: i64, gx: i64, gy: i64) -> (r: bool)
    requires
        m.wf(),
        -MAX_COORD <= ox <= MAX_COORD,
        -MAX_COORD <= oy <= MAX_COORD,
        -MAX_COORD <= gx <= MAX_COORD,
        -MAX_COORD <= gy <= MAX_COORD,
    ensures
        r == covers(m@, ox as int, oy as int, gx as int, gy as int),
{
    let r = gy - oy;
    let c = gx - ox;
    if 0 <= r && r < m.height() as i64 && 0 <= c && c < m.width() as i64 {
        assert(m@[r as int].len() == m@[0].len());
        m.is_solid(r as usize, c as usize)
    } else {
        false
    }
}

/// For two masks with a single solid cell each, the masks overlap iff the
/// two solid cells' absolute grid coordinates are equal.
pub proof fn lemma_single_cell_overlap(
    a: Seq<Seq<char>>,
    ax: int,
    ay: int,
    ra: int,
    ca: int,
    b: Seq<Seq<char>>,
    bx: int,
    by: int,
    rb: int,
    cb: int,
)
    requires
        solid(a, ra, ca),
        forall|r: int, c: int| #[trigger] solid(a, r, c) ==> r == ra && c == ca,
        solid(b, rb, cb),
        forall|r: int, c: int| #[trigger] solid(b, r, c) ==> r == rb && c == cb,
    ensures
        masks_overlap(a, ax, ay, b, bx, by) <==> (ax + ca == bx + cb && ay + ra == by + rb),
{
    if masks_overlap(a, ax, ay, b, bx, by) {
        let (gx, gy) = choose|gx: int, gy: int|
            #[trigger] covers(a, ax, ay, gx, gy) && #[trigger] covers(b, bx, by, gx, gy);
        assert(solid(a, gy - ay, gx - ax));
        assert(solid(b, gy - by, gx - bx));
    }
    if ax + ca == bx + cb && ay + ra == by + rb {
        assert(covers(a, ax, ay, ax + ca, ay + ra));
        assert(covers(b, bx, by, ax + ca, ay + ra));
    }
}

/// Translating both masks by one common vector never changes the result of
/// the overlap test.
pub proof fn lemma_overlap_translation(
    a: Seq<Seq<char>>,
    ax: int,
    ay: int,
    b: Seq<Seq<char>>,
    bx: int,
    by: int,
    dx: int,
    dy: int,
)
    ensures
        masks_overlap(a, ax + dx, ay + dy, b, bx + dx, by + dy) == masks_overlap(
            a,
            ax,
            ay,
            b,
            bx,
            by,
        ),
{
    if masks_overlap(a, ax, ay, b, bx, by) {
        let (gx, gy) = choose|gx: int, gy: int|
            #[trigger] covers(a, ax, ay, gx, gy) && #[trigger] covers(b, bx, by, gx, gy);
        assert(covers(a, ax + dx, ay + dy, gx + dx, gy + dy));
        assert(covers(b, bx + dx, by + dy, gx + dx, gy + dy));
    }
    if masks_overlap(a, ax + dx, ay + dy, b, bx + dx, by + dy) {
        let (gx, gy) = choose|gx: int, gy: int|
            #[trigger] covers(a, ax + dx, ay + dy, gx, gy) && #[trigger] covers(
                b,
                bx + dx,
                by + dy,
                gx,
                gy,
            );
        assert(covers(a, ax, ay, gx - dx, gy - dy));
        assert(covers(b, bx, by, gx - dx, gy - dy));
    }
}

} // verus!
