//! Axis-aligned bounding boxes, given by centre and extent, and the exact
//! overlap test the catch rule is built on.

use vstd::prelude::*;

verus! {

/// An integer clamped to the closed interval `[lo, hi]`.
pub open spec fn spec_clamp(v: int, lo: int, hi: int) -> int {
    if v < lo {
        lo
    } else if v > hi {
        hi
    } else {
        v
    }
}

/// Absolute value of an integer.
pub open spec fn abs_val(v: int) -> int {
    if v < 0 {
        -v
    } else {
        v
    }
}

/// Two axis-aligned boxes, each given by the centre of the box and its full
/// extent on each axis, overlap exactly when they share positive area on
/// both axes. Boxes whose edges merely touch do not overlap.
pub open spec fn boxes_overlap(
    px: int,
    py: int,
    pw: int,
    ph: int,
    qx: int,
    qy: int,
    qw: int,
    qh: int,
) -> bool {
    &&& 2 * abs_val(px - qx) < pw + qw
    &&& 2 * abs_val(py - qy) < ph + qh
}

/// The exact overlap test on centre/extent boxes with coordinates in
/// thousandths of a unit. Intermediate sums are taken in a wider type, so
/// any box placement is accepted.
pub fn aabb_overlap(
    px: i64,
    py: i64,
    pw: i64,
    ph: i64,
    qx: i64,
    qy: i64,
    qw: i64,
    qh: i64,
) -> (r: bool)
    ensures
        r == boxes_overlap(
            px as int,
            py as int,
            pw as int,
            ph as int,
            qx as int,
            qy as int,
            qw as int,
            qh as int,
        ),
{
    let dx: i128 = px as i128 - qx as i128;
    let dy: i128 = py as i128 - qy as i128;
    let adx: i128 = if dx < 0 {
        -dx
    } else {
        dx
    };
    let ady: i128 = if dy < 0 {
        -dy
    } else {
        dy
    };
    2 * adx < pw as i128 + qw as i128 && 2 * ady < ph as i128 + qh as i128
}

/// Law: the overlap test is symmetric in the two boxes.
pub proof fn lemma_overlap_symmetric(
    px: int,
    py: int,
    pw: int,
    ph: int,
    qx: int,
    qy: int,
    qw: int,
    qh: int,
)
    ensures
        boxes_overlap(px, py, pw, ph, qx, qy, qw, qh) == boxes_overlap(
            qx,
            qy,
            qw,
            qh,
            px,
            py,
            pw,
            ph,
        ),
{
}

/// Law: boxes whose edges exactly touch on some axis, with no protrusion
/// past one another there, do not overlap.
pub proof fn lemma_touching_edges_no_overlap(
    px: int,
    py: int,
    pw: int,
    ph: int,
    qx: int,
    qy: int,
    qw: int,
    qh: int,
)
    requires
        2 * abs_val(px - qx) == pw + qw || 2 * abs_val(py - qy) == ph + qh,
    ensures
        !boxes_overlap(px, py, pw, ph, qx, qy, qw, qh),
{
}

} // verus!
