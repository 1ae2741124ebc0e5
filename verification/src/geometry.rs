//! Rectangle values and the containment / centering queries the placement
//! policy is built on.

use vstd::prelude::*;

verus! {

/// Largest magnitude allowed for the coordinates and sides of a "real"
/// rectangle (a screen, workspace, strut or requested geometry).
pub const COORD_LIMIT: i32 = 2_000_000;

/// Largest magnitude allowed for the components of a floating-offset
/// rectangle.  Offsets are differences of real rectangles plus bounded drag
/// deltas, so they need more room than `COORD_LIMIT` but stay far away from
/// `i32` overflow.
pub const OFFSET_LIMIT: i32 = 32_000_000;

/// A rectangle: position `(x, y)` and size `(w, h)`.
///
/// The same type also carries floating offsets (a displacement added to a
/// window's tiled rectangle), in which case every component may be negative.
#[derive(Clone, Copy, Debug, PartialEq, Eq, Structural)]
pub struct Xyhw {
    pub x: i32,
    pub y: i32,
    pub w: i32,
    pub h: i32,
}

impl Xyhw {
    /// All four components bounded by `b` in magnitude.
    pub open spec fn within(self, b: int) -> bool {
        &&& -b <= self.x <= b
        &&& -b <= self.y <= b
        &&& -b <= self.w <= b
        &&& -b <= self.h <= b
    }

    /// Well-formed real rectangle: bounded, with non-negative sides.
    pub open spec fn wf(self) -> bool {
        self.within(COORD_LIMIT as int) && self.w >= 0 && self.h >= 0
    }

    /// Well-formed offset rectangle: bounded, any sign.
    pub open spec fn wf_offset(self) -> bool {
        self.within(OFFSET_LIMIT as int)
    }

    pub open spec fn contains_point_s(self, px: int, py: int) -> bool {
        &&& self.x <= px <= self.x + self.w
        &&& self.y <= py <= self.y + self.h
    }

    /// `other` lies fully inside `self`.
    pub open spec fn contains_rect_s(self, other: Xyhw) -> bool {
        &&& self.x <= other.x
        &&& other.x + other.w <= self.x + self.w
        &&& self.y <= other.y
        &&& other.y + other.h <= self.y + self.h
    }

    pub open spec fn center_x_s(self) -> int {
        self.x + self.w / 2
    }

    pub open spec fn center_y_s(self) -> int {
        self.y + self.h / 2
    }

    /// The half-sized rectangle centered inside `self`.
    pub open spec fn center_halfed_s(self) -> Xyhw {
        Xyhw {
            x: (self.x + self.w / 4) as i32,
            y: (self.y + self.h / 4) as i32,
            w: (self.w / 2) as i32,
            h: (self.h / 2) as i32,
        }
    }

    /// `self` repositioned so that it sits centered within `outer`, shifted
    /// up and left by the border width; the size is kept.
    pub open spec fn center_relative_s(self, outer: Xyhw, border: int) -> Xyhw {
        Xyhw {
            x: (outer.x + (outer.w - self.w) / 2 - border) as i32,
            y: (outer.y + (outer.h - self.h) / 2 - border) as i32,
            w: self.w,
            h: self.h,
        }
    }

    pub fn zero() -> (r: Xyhw)
        ensures
            r == (Xyhw { x: 0, y: 0, w: 0, h: 0 }),
    {
        Xyhw { x: 0, y: 0, w: 0, h: 0 }
    }

    pub fn new(x: i32, y: i32, w: i32, h: i32) -> (r: Xyhw)
        ensures
            r == (Xyhw { x, y, w, h }),
    {
        Xyhw { x, y, w, h }
    }

    pub fn contains_point(&self, px: i32, py: i32) -> (r: bool)
        ensures
            r == self.contains_point_s(px as int, py as int),
    {
        let x = self.x as i64;
        let y = self.y as i64;
        let w = self.w as i64;
        let h = self.h as i64;
        x <= px as i64 && px as i64 <= x + w && y <= py as i64 && py as i64 <= y + h
    }

    pub fn contains_xyhw(&self, other: &Xyhw) -> (r: bool)
        ensures
            r == self.contains_rect_s(*other),
    {
        let x = self.x as i64;
        let y = self.y as i64;
        let ox = other.x as i64;
        let oy = other.y as i64;
        x <= ox && ox + other.w as i64 <= x + self.w as i64 && y <= oy && oy + other.h as i64
            <= y + self.h as i64
    }

    /// The center point, for strut attribution and snap tests.
    pub fn center(&self) -> (r: (i32, i32))
        requires
            self.within(4 * OFFSET_LIMIT as int),
            self.w >= 0,
            self.h >= 0,
        ensures
            r.0 == self.center_x_s(),
            r.1 == self.center_y_s(),
    {
        let cx = self.x as i64 + self.w as i64 / 2;
        let cy = self.y as i64 + self.h as i64 / 2;
        (cx as i32, cy as i32)
    }

    /// Center this rectangle within `outer`, honoring the border width.
    pub fn center_relative(&mut self, outer: Xyhw, border: i32)
        requires
            old(self).within(4 * OFFSET_LIMIT as int),
            outer.within(4 * OFFSET_LIMIT as int),
            0 <= border <= COORD_LIMIT,
        ensures
            *final(self) == old(self).center_relative_s(outer, border as int),
    {
        let dx = half_floor(outer.w as i64 - self.w as i64);
        let dy = half_floor(outer.h as i64 - self.h as i64);
        self.x = (outer.x as i64 + dx - border as i64) as i32;
        self.y = (outer.y as i64 + dy - border as i64) as i32;
    }

    /// The half-sized rectangle centered inside `self`.
    pub fn center_halfed(&self) -> (r: Xyhw)
        requires
            self.wf(),
        ensures
            r == self.center_halfed_s(),
            self.contains_rect_s(r),
            r.within(2 * COORD_LIMIT as int),
            r.w >= 0,
            r.h >= 0,
    {
        Xyhw { x: self.x + self.w / 4, y: self.y + self.h / 4, w: self.w / 2, h: self.h / 2 }
    }

    pub fn set_x(&mut self, x: i32)
        ensures
            *final(self) == (Xyhw { x, ..*old(self) }),
    {
        self.x = x;
    }

    pub fn set_y(&mut self, y: i32)
        ensures
            *final(self) == (Xyhw { y, ..*old(self) }),
    {
        self.y = y;
    }
}

/// Floor division by two, matching the `int` division of the specifications
/// for either sign of `v`.
fn half_floor(v: i64) -> (r: i64)
    requires
        -1_000_000_000_000 <= v <= 1_000_000_000_000,
    ensures
        r == v as int / 2,
{
    if v >= 0 {
        v / 2
    } else {
        -((-v + 1) / 2)
    }
}

} // verus!
