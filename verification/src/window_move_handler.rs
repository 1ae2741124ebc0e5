//! Window moved: update the floating offsets from the drag-start position,
//! and snap the window to a workspace edge it was dropped close to.

use vstd::prelude::*;

use crate::geometry::Xyhw;
use crate::helpers;
use crate::manager::{processed_window_s, Manager};
use crate::window::{Window, WindowHandle};
use crate::workspace::Workspace;

verus! {

/// Proximity threshold for snapping, in pixels: a side strictly closer
/// than this to the workspace edge snaps onto it.
pub const SNAP_DIST: i32 = 10;

/// The workspace rectangle fully contains `loc`.
pub open spec fn ws_contains_rect(loc: Xyhw) -> spec_fn(Workspace) -> bool {
    |ws: Workspace| ws.xyhw.contains_rect_s(loc)
}

/// Whether some side of `loc` lies strictly within the snap threshold of
/// the corresponding workspace edge.
pub open spec fn near_edge_s(loc: Xyhw, ws_rect: Xyhw) -> bool {
    ||| abs_s(loc.y - ws_rect.y) < SNAP_DIST
    ||| abs_s(loc.y + loc.h - (ws_rect.y + ws_rect.h)) < SNAP_DIST
    ||| abs_s(loc.x - ws_rect.x) < SNAP_DIST
    ||| abs_s(loc.x + loc.w - (ws_rect.x + ws_rect.w)) < SNAP_DIST
}

pub open spec fn abs_s(v: int) -> int {
    if v < 0 {
        -v
    } else {
        v
    }
}

/// `loc` with each side that lies within the snap threshold moved exactly
/// onto the workspace edge; the size is kept.
pub open spec fn snapped_rect_s(loc: Xyhw, ws_rect: Xyhw) -> Xyhw {
    Xyhw {
        x: (if abs_s(loc.x - ws_rect.x) < SNAP_DIST {
            ws_rect.x as int
        } else if abs_s(loc.x + loc.w - (ws_rect.x + ws_rect.w)) < SNAP_DIST {
            ws_rect.x + ws_rect.w - loc.w
        } else {
            loc.x as int
        }) as i32,
        y: (if abs_s(loc.y - ws_rect.y) < SNAP_DIST {
            ws_rect.y as int
        } else if abs_s(loc.y + loc.h - (ws_rect.y + ws_rect.h)) < SNAP_DIST {
            ws_rect.y + ws_rect.h - loc.h
        } else {
            loc.y as int
        }) as i32,
        w: loc.w,
        h: loc.h,
    }
}

/// The window after snapping: floated exactly at the snapped rectangle.
pub open spec fn snapped_window_s(w: Window, ws: Workspace) -> Window {
    w.set_floating_exact_s(snapped_rect_s(w.calculated_xyhw_s(), ws.xyhw))
}

/// Snap-threshold law, for any window rectangle lying inside a workspace:
/// a side strictly within the snap threshold of the corresponding
/// workspace edge (at 9 px, say) lands exactly on that edge, and when
/// every side is at least the threshold away (at 10 or 11 px) the
/// rectangle is left entirely unchanged.
pub proof fn lemma_snap_threshold(loc: Xyhw, ws_rect: Xyhw)
    requires
        ws_rect.wf(),
        loc.w >= 0,
        loc.h >= 0,
        ws_rect.contains_rect_s(loc),
    ensures
        ({
            let snapped = snapped_rect_s(loc, ws_rect);
            &&& (abs_s(loc.x - ws_rect.x) < SNAP_DIST ==> snapped.x == ws_rect.x)
            &&& (abs_s(loc.x - ws_rect.x) >= SNAP_DIST && abs_s(
                loc.x + loc.w - (ws_rect.x + ws_rect.w),
            ) < SNAP_DIST ==> snapped.x + snapped.w == ws_rect.x + ws_rect.w)
            &&& (abs_s(loc.y - ws_rect.y) < SNAP_DIST ==> snapped.y == ws_rect.y)
            &&& (abs_s(loc.y - ws_rect.y) >= SNAP_DIST && abs_s(
                loc.y + loc.h - (ws_rect.y + ws_rect.h),
            ) < SNAP_DIST ==> snapped.y + snapped.h == ws_rect.y + ws_rect.h)
            &&& (!near_edge_s(loc, ws_rect) ==> snapped == loc)
        }),
{
}

/// The window after a move event: offsets updated by the drag delta and,
/// unless snapping is disabled, snapped to the edge of the workspace that
/// contains it when it was dropped close enough.  The second component
/// says whether a snap happened.
pub open spec fn moved_window_s(
    state: crate::state::State,
    w: Window,
    dx: int,
    dy: int,
    disable_snap: bool,
) -> (Window, bool) {
    let w1 = processed_window_s(w, dx, dy);
    let loc = w1.calculated_xyhw_s();
    if disable_snap {
        (w1, false)
    } else {
        match helpers::find_idx(state.workspaces@, ws_contains_rect(loc)) {
            Some(k) => {
                let ws = state.workspaces@[k];
                if !w1.must_float_s() && near_edge_s(loc, ws.xyhw) {
                    (snapped_window_s(w1, ws), true)
                } else {
                    (w1, false)
                }
            },
            None => (w1, false),
        }
    }
}

impl Manager {
    /// A window is being dragged: update its floating position, snapping
    /// it onto a workspace edge it came close to, and restack after a
    /// snap.  Returns false only when the handle is unknown.
    pub fn window_move_handler(&mut self, handle: &WindowHandle, offset_x: i32, offset_y: i32)
        -> (r: bool)
        requires
            old(self).wf(),
        ensures
            final(self).wf(),
            final(self).config == old(self).config,
            final(self).state.same_base(old(self).state),
            final(self).state.focus_manager == old(self).state.focus_manager,
            final(self).state.workspaces == old(self).state.workspaces,
            match helpers::find_handle_idx(old(self).state.windows@, *handle) {
                None => r == false && *final(self) == *old(self),
                Some(i) => {
                    let (w2, snapped) = moved_window_s(
                        old(self).state,
                        old(self).state.windows@[i],
                        offset_x as int,
                        offset_y as int,
                        old(self).config.disable_window_snap,
                    );
                    &&& r == true
                    &&& final(self).state.windows@ == old(self).state.windows@.update(i, w2)
                    &&& (snapped ==> {
                        &&& final(self).state.actions@ == old(self).state.actions@.push(
                            final(self).state.actions@.last(),
                        )
                        &&& crate::state::is_restack_of(
                            final(self).state.actions@.last(),
                            final(self).state.windows@,
                        )
                    })
                    &&& (!snapped ==> final(self).state.actions == old(self).state.actions)
                },
            },
    {
        let ghost st0 = self.state;
        let disable_snap = self.config.disable_window_snap();
        let idx = match helpers::position_of_handle(&self.state.windows, *handle) {
            Some(i) => i,
            None => {
                return false;
            },
        };
        let mut w = self.state.windows.remove(idx);
        self.process_window(&mut w, offset_x, offset_y);
        let snapped = if disable_snap {
            false
        } else {
            self.snap_to_workspace(&mut w)
        };
        self.state.windows.insert(idx, w);
        proof {
            let i = idx as int;
            assert(self.state.windows@ =~= st0.windows@.update(i, self.state.windows@[i]));
            assert forall|k: int|
                0 <= k < self.state.windows@.len() implies (#[trigger] self
                .state.windows@[k]).wf() by {
                if k != i {
                    assert(self.state.windows@[k] == st0.windows@[k]);
                }
            }
            assert forall|k: int, j: int|
                0 <= k < j < self.state.windows@.len() implies (#[trigger] self
                .state.windows@[k]).handle != (#[trigger] self.state.windows@[j]).handle by {
                assert(st0.windows@[k].handle != st0.windows@[j].handle);
            }
        }
        if snapped {
            self.state.sort_windows();
        }
        true
    }

    /// Snap the dragged window onto an edge of the workspace containing
    /// it, if it was dropped close enough to one; reports whether it did.
    fn snap_to_workspace(&self, window: &mut Window) -> (r: bool)
        requires
            self.wf(),
            old(window).wf(),
        ensures
            ({
                let loc = old(window).calculated_xyhw_s();
                match helpers::find_idx(self.state.workspaces@, ws_contains_rect(loc)) {
                    Some(k) => {
                        let ws = self.state.workspaces@[k];
                        if !old(window).must_float_s() && near_edge_s(loc, ws.xyhw) {
                            &&& r == true
                            &&& *final(window) == snapped_window_s(*old(window), ws)
                            &&& final(window).wf()
                        } else {
                            r == false && *final(window) == *old(window)
                        }
                    },
                    None => r == false && *final(window) == *old(window),
                }
            }),
            final(window).wf(),
            final(window).handle == old(window).handle,
    {
        let ghost loc0 = window.calculated_xyhw_s();
        proof {
            helpers::lemma_find_idx_spec(self.state.workspaces@, ws_contains_rect(loc0));
        }
        // Check that some workspace contains the window.
        let loc = window.calculated_xyhw();
        let mut k: usize = 0;
        while k < self.state.workspaces.len()
            invariant
                0 <= k <= self.state.workspaces@.len(),
                loc == loc0,
                *window == *old(window),
                forall|j: int|
                    0 <= j < k ==> !ws_contains_rect(loc0)(#[trigger] self.state.workspaces@[j]),
            decreases self.state.workspaces@.len() - k,
        {
            if self.state.workspaces[k].xyhw.contains_xyhw(&loc) {
                proof {
                    assert(ws_contains_rect(loc0)(self.state.workspaces@[k as int]));
                    match helpers::find_idx(self.state.workspaces@, ws_contains_rect(loc0)) {
                        Some(q) => {
                            if q < k {
                                assert(ws_contains_rect(loc0)(self.state.workspaces@[q]));
                            } else if q > k {
                                assert(!ws_contains_rect(loc0)(
                                    self.state.workspaces@[k as int],
                                ));
                            }
                        },
                        None => {
                            assert(!ws_contains_rect(loc0)(self.state.workspaces@[k as int]));
                        },
                    }
                }
                return self.should_snap(window, k, loc);
            }
            k = k + 1;
        }
        proof {
            match helpers::find_idx(self.state.workspaces@, ws_contains_rect(loc0)) {
                Some(q) => {
                    assert(ws_contains_rect(loc0)(self.state.workspaces@[q]));
                },
                None => {},
            }
        }
        false
    }

    /// To be snappable, the window must lie inside the workspace and have
    /// a side close to the workspace's edge.
    pub fn should_snap(&self, window: &mut Window, ws_idx: usize, loc: Xyhw) -> (r: bool)
        requires
            self.wf(),
            old(window).wf(),
            ws_idx < self.state.workspaces@.len(),
            loc == old(window).calculated_xyhw_s(),
            self.state.workspaces@[ws_idx as int].xyhw.contains_rect_s(loc),
        ensures
            ({
                let ws = self.state.workspaces@[ws_idx as int];
                if !old(window).must_float_s() && near_edge_s(loc, ws.xyhw) {
                    &&& r == true
                    &&& *final(window) == snapped_window_s(*old(window), ws)
                    &&& final(window).exact_xyhw_s() == snapped_rect_s(loc, ws.xyhw)
                } else {
                    r == false && *final(window) == *old(window)
                }
            }),
            final(window).wf(),
            final(window).handle == old(window).handle,
    {
        if window.must_float() {
            return false;
        }
        let ws = &self.state.workspaces[ws_idx];
        // Window sides.
        let win_left = loc.x as i64;
        let win_right = win_left + loc.w as i64;
        let win_top = loc.y as i64;
        let win_bottom = win_top + loc.h as i64;
        // Workspace sides.
        let ws_left = ws.xyhw.x as i64;
        let ws_right = ws_left + ws.xyhw.w as i64;
        let ws_top = ws.xyhw.y as i64;
        let ws_bottom = ws_top + ws.xyhw.h as i64;
        let dist = SNAP_DIST as i64;
        let near_top = abs64(win_top - ws_top) < dist;
        let near_bottom = abs64(win_bottom - ws_bottom) < dist;
        let near_left = abs64(win_left - ws_left) < dist;
        let near_right = abs64(win_right - ws_right) < dist;
        if near_top || near_bottom || near_left || near_right {
            let new_x: i64 = if near_left {
                ws_left
            } else if near_right {
                ws_right - loc.w as i64
            } else {
                win_left
            };
            let new_y: i64 = if near_top {
                ws_top
            } else if near_bottom {
                ws_bottom - loc.h as i64
            } else {
                win_top
            };
            window.set_floating_exact(
                Xyhw { x: new_x as i32, y: new_y as i32, w: loc.w, h: loc.h },
            );
            return true;
        }
        false
    }
}

/// Absolute value.
fn abs64(v: i64) -> (r: i64)
    requires
        -1_000_000_000_000 <= v <= 1_000_000_000_000,
    ensures
        r == abs_s(v as int),
{
    if v < 0 {
        -v
    } else {
        v
    }
}

} // verus!
