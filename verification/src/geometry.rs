//! Axis-aligned box overlap: the one geometric primitive of the game.

use vstd::prelude::*;

verus! {

/// Absolute value of a mathematical integer.
pub open spec fn abs_i(x: int) -> int {
    if x < 0 {
        -x
    } else {
        x
    }
}

/// Strict overlap of two axis-aligned boxes given by their centres and full
/// side lengths. Written with the halves doubled out so it stays in the
/// integers: `|ax - bx| < aw/2 + bw/2` on each axis.
pub open spec fn aabb_overlap(
    ax: int,
    ay: int,
    aw: int,
    ah: int,
    bx: int,
    by: int,
    bw: int,
    bh: int,
) -> bool {
    &&& 2 * abs_i(ax - bx) < aw + bw
    &&& 2 * abs_i(ay - by) < ah + bh
}

/// Overlap is symmetric in the two boxes.
pub proof fn lemma_overlap_symmetric(
    ax: int,
    ay: int,
    aw: int,
    ah: int,
    bx: int,
    by: int,
    bw: int,
    bh: int,
)
    ensures
        aabb_overlap(ax, ay, aw, ah, bx, by, bw, bh) == aabb_overlap(
            bx,
            by,
            bw,
            bh,
            ax,
            ay,
            aw,
            ah,
        ),
{
}

/// Does a square of side `a_size` centred at `(ax, ay)` strictly overlap a
/// `bw` by `bh` box centred at `(bx, by)`? Computed in 128-bit arithmetic so
/// any 64-bit centres and sides are admitted.
pub fn overlaps(ax: i64, ay: i64, a_size: i64, bx: i64, by: i64, bw: i64, bh: i64) -> (r: bool)
    ensures
        r == aabb_overlap(ax as int, ay as int, a_size as int, a_size as int, bx as int, by as int,
            bw as int, bh as int),
{
    let dx: i128 = ax as i128 - bx as i128;
    let dy: i128 = ay as i128 - by as i128;
    let adx: i128 = if dx < 0 {
        -dx
    } else {
        dx
    };
    let ady: i128 = if dy < 0 {
        -dy
    } else {
        dy
    };
    2 * adx < a_size as i128 + bw as i128 && 2 * ady < a_size as i128 + bh as i128
}

} // verus!
