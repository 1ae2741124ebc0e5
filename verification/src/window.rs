//! The window entity: identity, classification, and its two coordinate
//! frames (the tiled `normal` rectangle and the optional floating offsets).

use vstd::prelude::*;

use crate::geometry::{Xyhw, COORD_LIMIT, OFFSET_LIMIT};

verus! {

/// Opaque stable identifier assigned by the display server.
#[derive(Clone, Copy, Debug, PartialEq, Eq, Hash, Structural)]
pub enum WindowHandle {
    XlibHandle(u64),
    MockHandle(i32),
}

/// Classification driving the placement rules.
#[derive(Clone, Copy, Debug, PartialEq, Eq, Structural)]
pub enum WindowType {
    Desktop,
    Dock,
    Toolbar,
    Menu,
    Utility,
    Splash,
    Dialog,
    Normal,
}

/// Display-server window states; the policy only inspects `Fullscreen`.
#[derive(Clone, Copy, Debug, PartialEq, Eq, Structural)]
pub enum WindowState {
    Modal,
    Sticky,
    MaximizedVert,
    MaximizedHorz,
    Shaded,
    SkipTaskbar,
    SkipPager,
    Hidden,
    Fullscreen,
    Above,
    Below,
}

/// Per-side window margins, passed through from the theme.
#[derive(Clone, Copy, Debug, PartialEq, Eq, Structural)]
pub struct Margins {
    pub top: i32,
    pub right: i32,
    pub bottom: i32,
    pub left: i32,
}

impl Margins {
    pub fn new(v: i32) -> (r: Margins)
        ensures
            r == (Margins { top: v, right: v, bottom: v, left: v }),
    {
        Margins { top: v, right: v, bottom: v, left: v }
    }
}

/// One managed window.
///
/// `normal` is the tiled-frame rectangle, always maintained; while the
/// window floats, `floating_offsets` holds the displacement from `normal`
/// to the authoritative floating rectangle.
#[derive(Clone, Debug)]
pub struct Window {
    pub handle: WindowHandle,
    /// Relational back-reference to the window this one is a child of.
    pub transient: Option<WindowHandle>,
    pub kind: WindowType,
    /// Workspace-tag assignment; `None` means unassigned.
    pub tag: Option<usize>,
    /// Owning process id, used for scratchpad and ancestry matching.
    pub pid: Option<u32>,
    pub border: i32,
    pub margin: Margins,
    /// Workspace margin multiplier, in percent (100 = unscaled).
    pub margin_multiplier: u32,
    pub states: Vec<WindowState>,
    /// Size and position the client itself asked for, if any.
    pub requested: Option<Xyhw>,
    /// The tiled-frame rectangle.
    pub normal: Xyhw,
    /// Displacement from `normal` to the floating rectangle, while floating.
    pub floating_offsets: Option<Xyhw>,
    /// Floating offsets captured at drag begin by the adapter.
    pub start_loc: Option<Xyhw>,
    /// Reserved-area descriptor for Dock windows.
    pub strut: Option<Xyhw>,
    pub name: Option<String>,
    pub legacy_name: Option<String>,
    pub res_name: Option<String>,
    pub res_class: Option<String>,
    pub can_resize: bool,
    pub visible: bool,
}

impl Window {
    /// Geometric well-formedness: every stored rectangle is bounded, and the
    /// floating rectangle (`normal` plus offsets) keeps non-negative sides.
    pub open spec fn wf(self) -> bool {
        &&& self.normal.wf()
        &&& (self.requested matches Some(r) ==> r.wf())
        &&& (self.strut matches Some(s) ==> s.wf())
        &&& (self.floating_offsets matches Some(o) ==> {
            &&& o.wf_offset()
            &&& self.normal.w + o.w >= 0
            &&& self.normal.h + o.h >= 0
        })
        &&& (self.start_loc matches Some(s) ==> s.wf_offset())
        &&& 0 <= self.border <= COORD_LIMIT
    }

    pub open spec fn is_managed_s(self) -> bool {
        self.kind != WindowType::Desktop && self.kind != WindowType::Dock
    }

    pub open spec fn is_fullscreen_s(self) -> bool {
        self.states@.contains(WindowState::Fullscreen)
    }

    /// Forced-floating kinds that the policy never snaps or tiles.
    pub open spec fn must_float_s(self) -> bool {
        ||| !self.is_managed_s()
        ||| self.is_fullscreen_s()
        ||| self.kind == WindowType::Splash
        ||| self.kind == WindowType::Dialog
    }

    pub open spec fn floating_s(self) -> bool {
        self.floating_offsets is Some || self.must_float_s()
    }

    /// The authoritative floating rectangle: `normal` shifted by the offsets.
    pub open spec fn exact_xyhw_s(self) -> Xyhw {
        match self.floating_offsets {
            Some(o) => Xyhw {
                x: (self.normal.x + o.x) as i32,
                y: (self.normal.y + o.y) as i32,
                w: (self.normal.w + o.w) as i32,
                h: (self.normal.h + o.h) as i32,
            },
            None => self.normal,
        }
    }

    /// The rectangle the window is displayed at: the floating rectangle if
    /// floating, else the tiled frame.
    pub open spec fn calculated_xyhw_s(self) -> Xyhw {
        if self.floating_s() {
            self.exact_xyhw_s()
        } else {
            self.normal
        }
    }

    pub fn new(handle: WindowHandle, name: Option<String>, pid: Option<u32>) -> (r: Window)
        ensures
            r.handle == handle,
            r.name == name,
            r.pid == pid,
            r.transient is None,
            r.kind == WindowType::Normal,
            r.tag is None,
            r.border == 1,
            r.margin == (Margins { top: 10, right: 10, bottom: 10, left: 10 }),
            r.margin_multiplier == 100u32,
            r.states@ == Seq::<WindowState>::empty(),
            r.requested is None,
            r.normal == (Xyhw { x: 0, y: 0, w: 0, h: 0 }),
            r.floating_offsets is None,
            r.start_loc is None,
            r.strut is None,
            r.legacy_name is None,
            r.res_name is None,
            r.res_class is None,
            r.can_resize,
            r.visible,
            r.wf(),
    {
        Window {
            handle,
            transient: None,
            kind: WindowType::Normal,
            tag: None,
            pid,
            border: 1,
            margin: Margins::new(10),
            margin_multiplier: 100,
            states: Vec::new(),
            requested: None,
            normal: Xyhw::zero(),
            floating_offsets: None,
            start_loc: None,
            strut: None,
            name,
            legacy_name: None,
            res_name: None,
            res_class: None,
            can_resize: true,
            visible: true,
        }
    }

    pub fn is_managed(&self) -> (r: bool)
        ensures
            r == self.is_managed_s(),
    {
        self.kind != WindowType::Desktop && self.kind != WindowType::Dock
    }

    pub fn is_fullscreen(&self) -> (r: bool)
        ensures
            r == self.is_fullscreen_s(),
    {
        let mut i: usize = 0;
        while i < self.states.len()
            invariant
                0 <= i <= self.states.len(),
                forall|j: int| 0 <= j < i ==> self.states@[j] != WindowState::Fullscreen,
            decreases self.states.len() - i,
        {
            if self.states[i] == WindowState::Fullscreen {
                return true;
            }
            i = i + 1;
        }
        false
    }

    pub fn must_float(&self) -> (r: bool)
        ensures
            r == self.must_float_s(),
    {
        !self.is_managed() || self.is_fullscreen() || self.kind == WindowType::Splash
            || self.kind == WindowType::Dialog
    }

    pub fn floating(&self) -> (r: bool)
        ensures
            r == self.floating_s(),
    {
        self.floating_offsets.is_some() || self.must_float()
    }

    pub fn can_resize(&self) -> (r: bool)
        ensures
            r == self.can_resize,
    {
        self.can_resize
    }

    /// The window after `set_floating(value)`: becoming floating without
    /// stored offsets floats it in place (zero displacement).
    pub open spec fn set_floating_s(self, value: bool) -> Window {
        Window {
            floating_offsets: if value {
                if self.floating_offsets is Some {
                    self.floating_offsets
                } else {
                    Some(Xyhw { x: 0, y: 0, w: 0, h: 0 })
                }
            } else {
                None
            },
            ..self
        }
    }

    /// Mark the window floating or tiled.
    pub fn set_floating(&mut self, value: bool)
        ensures
            *final(self) == old(self).set_floating_s(value),
    {
        if value {
            if self.floating_offsets.is_none() {
                self.floating_offsets = Some(Xyhw::zero());
            }
        } else {
            self.floating_offsets = None;
        }
    }

    pub fn get_floating_offsets(&self) -> (r: Option<Xyhw>)
        ensures
            r == self.floating_offsets,
    {
        self.floating_offsets
    }

    pub fn set_floating_offsets(&mut self, value: Option<Xyhw>)
        ensures
            *final(self) == (Window { floating_offsets: value, ..*old(self) }),
    {
        self.floating_offsets = value;
    }

    /// The offsets that make the floating rectangle equal `value`, each
    /// component clamped into the offset range.
    pub open spec fn offsets_for_s(self, value: Xyhw) -> Xyhw {
        Xyhw {
            x: clamp_offset_s(value.x - self.normal.x) as i32,
            y: clamp_offset_s(value.y - self.normal.y) as i32,
            w: clamp_offset_s(value.w - self.normal.w) as i32,
            h: clamp_offset_s(value.h - self.normal.h) as i32,
        }
    }

    /// The window after `set_floating_exact(value)`.
    pub open spec fn set_floating_exact_s(self, value: Xyhw) -> Window {
        Window { floating_offsets: Some(self.offsets_for_s(value)), ..self }
    }

    /// Float the window exactly at `value` (stored as offsets from
    /// `normal`; components are clamped into the offset range, which no
    /// in-range placement ever reaches).
    pub fn set_floating_exact(&mut self, value: Xyhw)
        ensures
            *final(self) == old(self).set_floating_exact_s(value),
    {
        let o = Xyhw {
            x: clamp_offset(value.x as i64 - self.normal.x as i64),
            y: clamp_offset(value.y as i64 - self.normal.y as i64),
            w: clamp_offset(value.w as i64 - self.normal.w as i64),
            h: clamp_offset(value.h as i64 - self.normal.h as i64),
        };
        self.floating_offsets = Some(o);
    }

    pub fn exact_xyhw(&self) -> (r: Xyhw)
        requires
            self.wf(),
        ensures
            r == self.exact_xyhw_s(),
    {
        match self.floating_offsets {
            Some(o) => Xyhw {
                x: self.normal.x + o.x,
                y: self.normal.y + o.y,
                w: self.normal.w + o.w,
                h: self.normal.h + o.h,
            },
            None => self.normal,
        }
    }

    pub fn calculated_xyhw(&self) -> (r: Xyhw)
        requires
            self.wf(),
        ensures
            r == self.calculated_xyhw_s(),
    {
        if self.floating() {
            self.exact_xyhw()
        } else {
            self.normal
        }
    }

    pub fn width(&self) -> (r: i32)
        requires
            self.wf(),
        ensures
            r == self.calculated_xyhw_s().w,
    {
        self.calculated_xyhw().w
    }

    pub fn height(&self) -> (r: i32)
        requires
            self.wf(),
        ensures
            r == self.calculated_xyhw_s().h,
    {
        self.calculated_xyhw().h
    }

    /// Adopt the workspace's margin multiplier.
    pub fn apply_margin_multiplier(&mut self, multiplier: u32)
        ensures
            *final(self) == (Window { margin_multiplier: multiplier, ..*old(self) }),
    {
        self.margin_multiplier = multiplier;
    }
}

pub open spec fn clamp_offset_s(v: int) -> int {
    if v < -OFFSET_LIMIT {
        -OFFSET_LIMIT as int
    } else if v > OFFSET_LIMIT {
        OFFSET_LIMIT as int
    } else {
        v
    }
}

pub fn clamp_offset(v: i64) -> (r: i32)
    requires
        -5_000_000_000 <= v <= 5_000_000_000,
    ensures
        r == clamp_offset_s(v as int),
{
    if v < -OFFSET_LIMIT as i64 {
        -OFFSET_LIMIT
    } else if v > OFFSET_LIMIT as i64 {
        OFFSET_LIMIT
    } else {
        v as i32
    }
}

} // verus!
