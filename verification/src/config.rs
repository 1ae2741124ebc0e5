//! The read-only configuration surface the policy consults: insertion and
//! focus behaviour, snapping, theming passthrough, window hooks, and
//! scratchpad templates.

use vstd::prelude::*;

use crate::geometry::{Xyhw, COORD_LIMIT};
use crate::window::{Margins, Window};

verus! {

/// Where a newly created tiled window lands in the window list.
#[derive(Clone, Copy, Debug, PartialEq, Eq, Structural)]
pub enum InsertBehavior {
    Top,
    Bottom,
    AfterCurrent,
    BeforeCurrent,
}

/// A length, absolute or relative to a workspace dimension.
#[derive(Clone, Copy, Debug, PartialEq, Eq, Structural)]
pub enum Size {
    Pixel(i32),
    /// Fraction of the workspace dimension, in thousandths.
    Ratio(u32),
}

impl Size {
    /// Valid as a coordinate offset.
    pub open spec fn wf(self) -> bool {
        match self {
            Size::Pixel(v) => -COORD_LIMIT <= v <= COORD_LIMIT,
            Size::Ratio(r) => r <= 1000,
        }
    }

    /// Valid as a dimension: non-negative.
    pub open spec fn wf_dim(self) -> bool {
        match self {
            Size::Pixel(v) => 0 <= v <= COORD_LIMIT,
            Size::Ratio(r) => r <= 1000,
        }
    }

    /// The resolved length against a workspace dimension `extent`.
    pub open spec fn resolve_s(self, extent: int) -> int {
        match self {
            Size::Pixel(v) => v as int,
            Size::Ratio(r) => extent * r / 1000,
        }
    }

    pub fn resolve(&self, extent: i32) -> (r: i32)
        requires
            self.wf(),
            0 <= extent <= COORD_LIMIT,
        ensures
            r == self.resolve_s(extent as int),
            -COORD_LIMIT <= r <= COORD_LIMIT,
    {
        match self {
            Size::Pixel(v) => *v,
            Size::Ratio(q) => {
                proof {
                    assert(0 <= (extent as int) * (*q as int) <= (COORD_LIMIT as int) * 1000)
                        by (nonlinear_arith)
                        requires
                            0 <= extent <= COORD_LIMIT,
                            0 <= *q <= 1000,
                    ;
                    assert((extent as int) * (*q as int) / 1000 <= COORD_LIMIT as int);
                }
                let scaled = (extent as i64) * (*q as i64) / 1000;
                scaled as i32
            },
        }
    }
}

/// A named, pre-declared floating window template, bound at runtime to the
/// process ids of its spawned clients.
#[derive(Clone, Debug)]
pub struct ScratchPad {
    pub name: String,
    pub x: Size,
    pub y: Size,
    pub width: Size,
    pub height: Size,
}

impl ScratchPad {
    pub open spec fn wf(self) -> bool {
        self.x.wf() && self.y.wf() && self.width.wf_dim() && self.height.wf_dim()
    }

    /// The template's floating rectangle resolved against a workspace
    /// rectangle.
    pub open spec fn xyhw_s(self, ws: Xyhw) -> Xyhw {
        Xyhw {
            x: (ws.x + self.x.resolve_s(ws.w as int)) as i32,
            y: (ws.y + self.y.resolve_s(ws.h as int)) as i32,
            w: self.width.resolve_s(ws.w as int) as i32,
            h: self.height.resolve_s(ws.h as int) as i32,
        }
    }

    pub fn xyhw(&self, ws: &Xyhw) -> (r: Xyhw)
        requires
            self.wf(),
            ws.wf(),
        ensures
            r == self.xyhw_s(*ws),
            r.within(2 * COORD_LIMIT as int),
            r.w >= 0,
            r.h >= 0,
    {
        Xyhw {
            x: ws.x + self.x.resolve(ws.w),
            y: ws.y + self.y.resolve(ws.h),
            w: self.width.resolve(ws.w),
            h: self.height.resolve(ws.h),
        }
    }
}

/// Equality of two optional strings by their character content.
pub open spec fn opt_str_eq_s(a: Option<String>, b: Option<String>) -> bool {
    match (a, b) {
        (Some(x), Some(y)) => x@ == y@,
        (None, None) => true,
        _ => false,
    }
}

fn opt_str_eq(a: &Option<String>, b: &Option<String>) -> (r: bool)
    ensures
        r == opt_str_eq_s(*a, *b),
{
    match (a, b) {
        (Some(x), Some(y)) => x.eq(y),
        (None, None) => true,
        _ => false,
    }
}

/// Selecting by window class and/or title, lets the user decide the tag
/// and floating state a matching window spawns with.
#[derive(Clone, Debug)]
pub struct WindowHook {
    /// `WM_CLASS` in X11.
    pub window_class: Option<String>,
    /// `_NET_WM_NAME` in X11.
    pub window_title: Option<String>,
    pub spawn_on_tag: Option<usize>,
    pub spawn_floating: Option<bool>,
}

impl WindowHook {
    /// Similarity score between a window and this hook.  Title matches are
    /// scored higher than class matches so the most specific hook wins.
    pub open spec fn score_s(self, w: Window) -> int {
        (if self.window_class is Some && (opt_str_eq_s(self.window_class, w.res_name)
            || opt_str_eq_s(self.window_class, w.res_class)) {
            1int
        } else {
            0int
        }) + (if self.window_title is Some && (opt_str_eq_s(self.window_title, w.name)
            || opt_str_eq_s(self.window_title, w.legacy_name)) {
            2int
        } else {
            0int
        })
    }

    /// The window after this hook is applied: the tag is forced if the hook
    /// names one, and the floating flag is set if the hook decides it.
    pub open spec fn apply_s(self, w: Window) -> Window {
        let tagged = Window {
            tag: if self.spawn_on_tag is Some {
                self.spawn_on_tag
            } else {
                w.tag
            },
            ..w
        };
        match self.spawn_floating {
            Some(f) => tagged.set_floating_s(f),
            None => tagged,
        }
    }

    pub fn score_window(&self, window: &Window) -> (r: u8)
        ensures
            r as int == self.score_s(*window),
    {
        let class_match = self.window_class.is_some() && (opt_str_eq(
            &self.window_class,
            &window.res_name,
        ) || opt_str_eq(&self.window_class, &window.res_class));
        let title_match = self.window_title.is_some() && (opt_str_eq(
            &self.window_title,
            &window.name,
        ) || opt_str_eq(&self.window_title, &window.legacy_name));
        (if class_match {
            1u8
        } else {
            0u8
        }) + (if title_match {
            2u8
        } else {
            0u8
        })
    }

    pub fn apply(&self, window: &mut Window)
        ensures
            *final(window) == self.apply_s(*old(window)),
    {
        if let Some(tag) = self.spawn_on_tag {
            window.tag = Some(tag);
        }
        if let Some(should_float) = self.spawn_floating {
            window.set_floating(should_float);
        }
    }
}

/// The index of the hook that `setup_predefined_window` applies: among the
/// hooks with a positive score the maximal one, later hooks winning ties.
pub open spec fn best_hook_idx(rules: Seq<WindowHook>, w: Window) -> Option<int>
    decreases rules.len(),
{
    if rules.len() == 0 {
        None
    } else {
        let last = rules.len() - 1;
        let score = rules[last].score_s(w);
        match best_hook_idx(rules.drop_last(), w) {
            None => if score > 0 {
                Some(last)
            } else {
                None
            },
            Some(i) => if score > 0 && score >= rules[i].score_s(w) {
                Some(last)
            } else {
                Some(i)
            },
        }
    }
}

/// The window after the best-scoring hook, if any, is applied.
pub open spec fn apply_best_hook_s(c: Config, w: Window) -> Window {
    match best_hook_idx(c.rules_s(), w) {
        Some(i) => c.rules_s()[i].apply_s(w),
        None => w,
    }
}

/// General configuration: the named settings the policy reads, plus the
/// user's window hooks and scratchpad templates.
#[derive(Clone, Debug)]
pub struct Config {
    pub insert_behavior: InsertBehavior,
    pub focus_behaviour: crate::focus::FocusBehaviour,
    pub focus_new_windows: bool,
    pub sloppy_mouse_follows_focus: bool,
    pub disable_window_snap: bool,
    pub on_new_window_cmd: Option<String>,
    pub border_width: i32,
    pub margin: Margins,
    pub window_rules: Option<Vec<WindowHook>>,
    pub scratchpad: Option<Vec<ScratchPad>>,
    pub tags: Option<Vec<String>>,
    /// Path of the state snapshot used across soft reloads.
    pub state: Option<String>,
}

impl Config {
    pub open spec fn wf(self) -> bool {
        &&& 0 <= self.border_width <= COORD_LIMIT
        &&& (self.scratchpad matches Some(sp) ==> forall|i: int|
            0 <= i < sp@.len() ==> (#[trigger] sp@[i]).wf())
    }

    pub open spec fn rules_s(self) -> Seq<WindowHook> {
        match self.window_rules {
            Some(r) => r@,
            None => Seq::empty(),
        }
    }

    pub fn insert_behavior(&self) -> (r: InsertBehavior)
        ensures
            r == self.insert_behavior,
    {
        self.insert_behavior
    }

    pub fn focus_behaviour(&self) -> (r: crate::focus::FocusBehaviour)
        ensures
            r == self.focus_behaviour,
    {
        self.focus_behaviour
    }

    pub fn focus_new_windows(&self) -> (r: bool)
        ensures
            r == self.focus_new_windows,
    {
        self.focus_new_windows
    }

    pub fn sloppy_mouse_follows_focus(&self) -> (r: bool)
        ensures
            r == self.sloppy_mouse_follows_focus,
    {
        self.sloppy_mouse_follows_focus
    }

    pub fn disable_window_snap(&self) -> (r: bool)
        ensures
            r == self.disable_window_snap,
    {
        self.disable_window_snap
    }

    pub fn on_new_window_cmd(&self) -> (r: Option<String>)
        ensures
            opt_str_eq_s(r, self.on_new_window_cmd),
    {
        match &self.on_new_window_cmd {
            Some(cmd) => Some(cmd.clone()),
            None => None,
        }
    }

    pub fn border_width(&self) -> (r: i32)
        ensures
            r == self.border_width,
    {
        self.border_width
    }

    pub fn margin(&self) -> (r: Margins)
        ensures
            r == self.margin,
    {
        self.margin
    }

    /// The file the whole-state snapshot is saved to on soft reload.
    pub fn state_file(&self) -> (r: String)
        ensures
            match self.state {
                Some(s) => r@ == s@,
                None => r@ == "/tmp/leftwm.state"@,
            },
    {
        match &self.state {
            Some(s) => s.clone(),
            None => "/tmp/leftwm.state".to_owned(),
        }
    }

    /// The scratchpad templates, or none when the user declared none.
    pub fn create_list_of_scratchpads(&self) -> (r: Vec<ScratchPad>)
        ensures
            r@ == match self.scratchpad {
                Some(sp) => sp@,
                None => Seq::<ScratchPad>::empty(),
            },
    {
        let mut out: Vec<ScratchPad> = Vec::new();
        match &self.scratchpad {
            Some(sp) => {
                let mut i: usize = 0;
                while i < sp.len()
                    invariant
                        0 <= i <= sp.len(),
                        out@ =~= sp@.take(i as int),
                    decreases sp.len() - i,
                {
                    let s = &sp[i];
                    out.push(
                        ScratchPad {
                            name: s.name.clone(),
                            x: s.x,
                            y: s.y,
                            width: s.width,
                            height: s.height,
                        },
                    );
                    proof {
                        assert(sp@.take(i + 1int) =~= sp@.take(i as int).push(sp@[i as int]));
                        assert(out@.last() == sp@[i as int]);
                    }
                    i = i + 1;
                }
                proof {
                    assert(sp@.take(sp@.len() as int) =~= sp@);
                }
            },
            None => {},
        }
        out
    }

    /// Pick the best matching hook, if any, and apply it to the window.
    pub fn setup_predefined_window(&self, window: &mut Window) -> (r: bool)
        ensures
            match best_hook_idx(self.rules_s(), *old(window)) {
                Some(i) => r == true && *final(window) == self.rules_s()[i].apply_s(
                    *old(window),
                ),
                None => r == false && *final(window) == *old(window),
            },
    {
        let rules = match &self.window_rules {
            Some(r) => r,
            None => {
                return false;
            },
        };
        let ghost w0 = *window;
        let mut best: Option<usize> = None;
        let mut best_score: u8 = 0;
        let mut i: usize = 0;
        while i < rules.len()
            invariant
                0 <= i <= rules.len(),
                *window == w0,
                match best {
                    Some(b) => {
                        &&& b < i
                        &&& best_hook_idx(rules@.take(i as int), w0) == Some(b as int)
                        &&& best_score as int == rules@[b as int].score_s(w0)
                        &&& best_score > 0
                    },
                    None => {
                        &&& best_hook_idx(rules@.take(i as int), w0) is None
                        &&& best_score == 0
                    },
                },
            decreases rules.len() - i,
        {
            let score = rules[i].score_window(window);
            proof {
                assert(rules@.take(i + 1int).drop_last() =~= rules@.take(i as int));
                assert(rules@.take(i + 1int).last() == rules@[i as int]);
            }
            if score != 0 && score >= best_score {
                best = Some(i);
                best_score = score;
            }
            i = i + 1;
        }
        proof {
            assert(rules@.take(rules@.len() as int) =~= rules@);
        }
        match best {
            Some(b) => {
                let hook = &rules[b];
                hook.apply(window);
                true
            },
            None => false,
        }
    }

    /// Apply the visual settings to a freshly created window.
    pub fn load_window(&self, window: &mut Window)
        ensures
            *final(window) == (Window {
                border: self.border_width,
                margin: self.margin,
                ..*old(window)
            }),
    {
        window.border = self.border_width;
        window.margin = self.margin;
    }
}

impl Default for Config {
    fn default() -> (r: Config)
        ensures
            r.insert_behavior == InsertBehavior::Bottom,
            r.focus_behaviour == crate::focus::FocusBehaviour::Sloppy,
            r.focus_new_windows == true,
            r.sloppy_mouse_follows_focus == true,
            r.disable_window_snap == false,
            r.on_new_window_cmd is None,
            r.border_width == 1,
            r.margin == (Margins { top: 10, right: 10, bottom: 10, left: 10 }),
            r.window_rules is None,
            r.scratchpad is None,
            r.tags is None,
            r.state is None,
            r.wf(),
    {
        Config {
            insert_behavior: InsertBehavior::Bottom,
            focus_behaviour: crate::focus::FocusBehaviour::Sloppy,
            focus_new_windows: true,
            sloppy_mouse_follows_focus: true,
            disable_window_snap: false,
            on_new_window_cmd: None,
            border_width: 1,
            margin: Margins { top: 10, right: 10, bottom: 10, left: 10 },
            window_rules: None,
            scratchpad: None,
            tags: None,
            state: None,
        }
    }
}

} // verus!
