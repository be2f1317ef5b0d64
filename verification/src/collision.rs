//! Axis-aligned overlap testing between footprints, with classification of
//! the contact side.
//!
//! A footprint is a rectangle given by its center and half-extents. Two
//! footprints overlap when their interiors intersect (touching edges do not
//! count). When they overlap, the contact is classified: full containment of
//! the first footprint in the second reports `Inside`; otherwise the axis
//! with the smaller penetration depth decides, and the relative order of the
//! centers on that axis picks the side. `Left` means the first footprint
//! touches the left side of the second, `Bottom` that it touches the bottom,
//! and so on. On equal penetration depths the x axis decides.

use vstd::prelude::*;

verus! {

/// An axis-aligned rectangle: center and half-extents, in half-pixel units.
#[derive(Clone, Copy, Debug, PartialEq, Eq, Structural)]
pub struct Footprint {
    pub cx: i32,
    pub cy: i32,
    pub hx: i32,
    pub hy: i32,
}

/// Which side of the second footprint the first one contacts.
#[derive(Clone, Copy, Debug, PartialEq, Eq, Structural)]
pub enum OverlapSide {
    Left,
    Right,
    Top,
    Bottom,
    Inside,
}

/// The interiors of the two boxes intersect.
pub open spec fn boxes_overlap(
    ax: int, ay: int, ahx: int, ahy: int,
    bx: int, by: int, bhx: int, bhy: int,
) -> bool {
    &&& ax - ahx < bx + bhx
    &&& ax + ahx > bx - bhx
    &&& ay - ahy < by + bhy
    &&& ay + ahy > by - bhy
}

/// The first box lies entirely within the second.
pub open spec fn box_inside(
    ax: int, ay: int, ahx: int, ahy: int,
    bx: int, by: int, bhx: int, bhy: int,
) -> bool {
    &&& bx - bhx <= ax - ahx
    &&& ax + ahx <= bx + bhx
    &&& by - bhy <= ay - ahy
    &&& ay + ahy <= by + bhy
}

/// Penetration depth of the overlap along the x axis.
pub open spec fn pen_x(ax: int, ahx: int, bx: int, bhx: int) -> int {
    (if ax + ahx <= bx + bhx { ax + ahx } else { bx + bhx })
        - (if ax - ahx >= bx - bhx { ax - ahx } else { bx - bhx })
}

/// Penetration depth of the overlap along the y axis.
pub open spec fn pen_y(ay: int, ahy: int, by: int, bhy: int) -> int {
    (if ay + ahy <= by + bhy { ay + ahy } else { by + bhy })
        - (if ay - ahy >= by - bhy { ay - ahy } else { by - bhy })
}

/// Classification of the contact between two boxes: `None` when they do not
/// overlap, `Inside` on containment, else the side of the second box that
/// the first box contacts, decided by the axis of smaller penetration.
pub open spec fn spec_side(
    ax: int, ay: int, ahx: int, ahy: int,
    bx: int, by: int, bhx: int, bhy: int,
) -> Option<OverlapSide> {
    if !boxes_overlap(ax, ay, ahx, ahy, bx, by, bhx, bhy) {
        None
    } else if box_inside(ax, ay, ahx, ahy, bx, by, bhx, bhy) {
        Some(OverlapSide::Inside)
    } else if pen_x(ax, ahx, bx, bhx) <= pen_y(ay, ahy, by, bhy) {
        if ax < bx {
            Some(OverlapSide::Left)
        } else {
            Some(OverlapSide::Right)
        }
    } else {
        if ay < by {
            Some(OverlapSide::Bottom)
        } else {
            Some(OverlapSide::Top)
        }
    }
}

/// Side classification of footprint `a` against footprint `b`.
pub open spec fn spec_overlap(a: Footprint, b: Footprint) -> Option<OverlapSide> {
    spec_side(
        a.cx as int, a.cy as int, a.hx as int, a.hy as int,
        b.cx as int, b.cy as int, b.hx as int, b.hy as int,
    )
}

/// A contact counts as a chopping hit only when it is lateral or head-on:
/// `Left`, `Right` or `Inside`. Top and bottom contacts do not register.
pub open spec fn spec_valid_hit(r: Option<OverlapSide>) -> bool {
    ||| r == Some(OverlapSide::Left)
    ||| r == Some(OverlapSide::Right)
    ||| r == Some(OverlapSide::Inside)
}

/// Axis-aligned overlap test with contact-side classification; pure.
pub fn overlaps(a: &Footprint, b: &Footprint) -> (r: Option<OverlapSide>)
    ensures
        r == spec_overlap(*a, *b),
{
    let a_min_x: i64 = a.cx as i64 - a.hx as i64;
    let a_max_x: i64 = a.cx as i64 + a.hx as i64;
    let a_min_y: i64 = a.cy as i64 - a.hy as i64;
    let a_max_y: i64 = a.cy as i64 + a.hy as i64;
    let b_min_x: i64 = b.cx as i64 - b.hx as i64;
    let b_max_x: i64 = b.cx as i64 + b.hx as i64;
    let b_min_y: i64 = b.cy as i64 - b.hy as i64;
    let b_max_y: i64 = b.cy as i64 + b.hy as i64;

    if !(a_min_x < b_max_x && a_max_x > b_min_x && a_min_y < b_max_y && a_max_y > b_min_y) {
        None
    } else if b_min_x <= a_min_x && a_max_x <= b_max_x && b_min_y <= a_min_y && a_max_y <= b_max_y {
        Some(OverlapSide::Inside)
    } else {
        let depth_x: i64 = (if a_max_x <= b_max_x { a_max_x } else { b_max_x })
            - (if a_min_x >= b_min_x { a_min_x } else { b_min_x });
        let depth_y: i64 = (if a_max_y <= b_max_y { a_max_y } else { b_max_y })
            - (if a_min_y >= b_min_y { a_min_y } else { b_min_y });
        if depth_x <= depth_y {
            if a.cx < b.cx {
                Some(OverlapSide::Left)
            } else {
                Some(OverlapSide::Right)
            }
        } else {
            if a.cy < b.cy {
                Some(OverlapSide::Bottom)
            } else {
                Some(OverlapSide::Top)
            }
        }
    }
}

/// Whether a classified contact registers as a chopping hit.
pub fn is_valid_hit(r: &Option<OverlapSide>) -> (v: bool)
    ensures
        v == spec_valid_hit(*r),
{
    match r {
        Some(OverlapSide::Left) => true,
        Some(OverlapSide::Right) => true,
        Some(OverlapSide::Inside) => true,
        _ => false,
    }
}

} // verus!
