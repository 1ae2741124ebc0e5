//! The workspace entity: a tag-bound screen region with a layout selection
//! and the derived avoid-list of dock struts.

use vstd::prelude::*;

use crate::geometry::{Xyhw, COORD_LIMIT};
use crate::window::Window;

verus! {

/// Arrangement algorithm tag.  The policy itself only distinguishes the
/// strict-visual-order layouts (`Monocle`, `MainAndDeck`) from the rest.
#[derive(Clone, Copy, Debug, PartialEq, Eq, Structural)]
pub enum Layout {
    MainAndVertStack,
    MainAndHorizontalStack,
    MainAndDeck,
    GridHorizontal,
    EvenHorizontal,
    EvenVertical,
    Fibonacci,
    CenterMain,
    CenterMainBalanced,
    Monocle,
    RightWiderLeftStack,
    LeftWiderRightStack,
}

/// A physical screen as reported by the display server.
#[derive(Clone, Copy, Debug)]
pub struct Screen {
    pub xyhw: Xyhw,
}

impl Screen {
    pub fn new(xyhw: Xyhw) -> (r: Screen)
        ensures
            r == (Screen { xyhw }),
    {
        Screen { xyhw }
    }
}

impl Default for Screen {
    /// An 800x600 screen at the origin.
    fn default() -> (r: Screen)
        ensures
            r == (Screen { xyhw: Xyhw { x: 0, y: 0, w: 800, h: 600 } }),
    {
        Screen { xyhw: Xyhw { x: 0, y: 0, w: 800, h: 600 } }
    }
}

/// A tag-bound screen region.
#[derive(Clone, Debug)]
pub struct Workspace {
    /// The tag whose windows this workspace shows.
    pub tag: Option<usize>,
    /// The workspace's screen rectangle.
    pub xyhw: Xyhw,
    pub layout: Layout,
    /// Workspace margin multiplier, in percent (100 = unscaled).
    pub margin_multiplier: u32,
    /// Derived list of dock struts whose center lies in this workspace;
    /// recomputed by the policy, never hand-edited.
    pub avoid: Vec<Xyhw>,
    /// Cached usable area: `xyhw` trimmed by the avoided struts.
    pub xyhw_avoided: Xyhw,
}

impl Workspace {
    pub open spec fn wf(self) -> bool {
        &&& self.xyhw.wf()
        &&& forall|i: int| 0 <= i < self.avoid@.len() ==> (#[trigger] self.avoid@[i]).wf()
        &&& self.xyhw_avoided.within(2 * COORD_LIMIT as int)
        &&& self.xyhw_avoided.w >= 0
        &&& self.xyhw_avoided.h >= 0
    }

    /// The window belongs to this workspace and takes part in tiling.
    pub open spec fn is_managed_s(self, window: Window) -> bool {
        window.tag == self.tag && window.is_managed_s()
    }

    /// The usable area left after trimming each side of `area` that a strut
    /// in `avoid` rests against.
    pub open spec fn avoided_area_s(area: Xyhw, avoid: Seq<Xyhw>) -> Xyhw
        decreases avoid.len(),
    {
        if avoid.len() == 0 {
            area
        } else {
            Self::avoided_area_s(Self::trim_one_s(area, avoid[0]), avoid.skip(1))
        }
    }

    /// Trim the single side of `area` that the strut `s` rests against: a
    /// strut reaching the top edge shrinks the area from the top, and so on.
    pub open spec fn trim_one_s(area: Xyhw, s: Xyhw) -> Xyhw {
        if s.y <= area.y && s.y + s.h < area.y + area.h && s.y + s.h > area.y {
            Xyhw {
                y: (s.y + s.h) as i32,
                h: (area.y + area.h - s.y - s.h) as i32,
                ..area
            }
        } else if s.y + s.h >= area.y + area.h && s.y > area.y && s.y < area.y + area.h {
            Xyhw { h: (s.y - area.y) as i32, ..area }
        } else if s.x <= area.x && s.x + s.w < area.x + area.w && s.x + s.w > area.x {
            Xyhw {
                x: (s.x + s.w) as i32,
                w: (area.x + area.w - s.x - s.w) as i32,
                ..area
            }
        } else if s.x + s.w >= area.x + area.w && s.x > area.x && s.x < area.x + area.w {
            Xyhw { w: (s.x - area.x) as i32, ..area }
        } else {
            area
        }
    }

    pub fn new(tag: Option<usize>, xyhw: Xyhw, layout: Layout) -> (r: Workspace)
        requires
            xyhw.wf(),
        ensures
            r.tag == tag,
            r.xyhw == xyhw,
            r.layout == layout,
            r.margin_multiplier == 100u32,
            r.avoid@ == Seq::<Xyhw>::empty(),
            r.xyhw_avoided == xyhw,
            r.wf(),
    {
        Workspace {
            tag,
            xyhw,
            layout,
            margin_multiplier: 100,
            avoid: Vec::new(),
            xyhw_avoided: xyhw,
        }
    }

    pub fn contains_point(&self, x: i32, y: i32) -> (r: bool)
        ensures
            r == self.xyhw.contains_point_s(x as int, y as int),
    {
        self.xyhw.contains_point(x, y)
    }

    pub fn is_managed(&self, window: &Window) -> (r: bool)
        ensures
            r == self.is_managed_s(*window),
    {
        window.tag == self.tag && window.is_managed()
    }

    /// The half-sized rectangle centered in this workspace.
    pub fn center_halfed(&self) -> (r: Xyhw)
        requires
            self.xyhw.wf(),
        ensures
            r == self.xyhw.center_halfed_s(),
            self.xyhw.contains_rect_s(r),
    {
        self.xyhw.center_halfed()
    }

    /// Recompute the cached usable area from the rectangle and the current
    /// avoid list.
    pub fn update_avoided_areas(&mut self)
        requires
            old(self).wf(),
        ensures
            *final(self) == (Workspace {
                xyhw_avoided: Self::avoided_area_s(old(self).xyhw, old(self).avoid@),
                ..*old(self)
            }),
            final(self).wf(),
    {
        let mut area = self.xyhw;
        let mut i: usize = 0;
        proof {
            assert(self.avoid@.skip(0) == self.avoid@);
        }
        while i < self.avoid.len()
            invariant
                0 <= i <= self.avoid.len(),
                area.w >= 0,
                area.h >= 0,
                self.xyhw.contains_rect_s(area),
                Self::avoided_area_s(self.xyhw, self.avoid@) == Self::avoided_area_s(
                    area,
                    self.avoid@.skip(i as int),
                ),
            decreases self.avoid.len() - i,
        {
            let next = Self::trim_one(area, self.avoid[i]);
            proof {
                assert(self.avoid@.skip(i as int)[0] == self.avoid@[i as int]);
                assert(self.avoid@.skip(i as int).skip(1) == self.avoid@.skip(i as int + 1));
            }
            area = next;
            i = i + 1;
        }
        self.xyhw_avoided = area;
    }

    fn trim_one(area: Xyhw, s: Xyhw) -> (r: Xyhw)
        requires
            area.within(2 * COORD_LIMIT as int),
            area.w >= 0,
            area.h >= 0,
            s.wf(),
        ensures
            r == Self::trim_one_s(area, s),
            r.w >= 0,
            r.h >= 0,
            area.contains_rect_s(r),
    {
        let ax = area.x as i64;
        let ay = area.y as i64;
        let aw = area.w as i64;
        let ah = area.h as i64;
        let sx = s.x as i64;
        let sy = s.y as i64;
        let sw = s.w as i64;
        let sh = s.h as i64;
        if sy <= ay && sy + sh < ay + ah && sy + sh > ay {
            Xyhw { y: (sy + sh) as i32, h: (ay + ah - sy - sh) as i32, ..area }
        } else if sy + sh >= ay + ah && sy > ay && sy < ay + ah {
            Xyhw { h: (sy - ay) as i32, ..area }
        } else if sx <= ax && sx + sw < ax + aw && sx + sw > ax {
            Xyhw { x: (sx + sw) as i32, w: (ax + aw - sx - sw) as i32, ..area }
        } else if sx + sw >= ax + aw && sx > ax && sx < ax + aw {
            Xyhw { w: (sx - ax) as i32, ..area }
        } else {
            area
        }
    }
}

} // verus!
