//! Window resized: the drag-update mechanics of a move, applied to the
//! floating offsets' size instead of their position; no snapping.

use vstd::prelude::*;

use crate::geometry::Xyhw;
use crate::helpers;
use crate::manager::Manager;
use crate::window::{clamp_offset, clamp_offset_s, Window, WindowHandle};

verus! {

/// The window after a resize update: the floating offsets' size becomes
/// the drag-start size grown by the delta (clamped into the offset range,
/// and never shrinking the floating rectangle below the empty size); the
/// offsets' position components are kept.
pub open spec fn resized_window_s(w: Window, dw: int, dh: int) -> Window {
    let o = match w.floating_offsets {
        Some(o) => o,
        None => Xyhw { x: 0, y: 0, w: 0, h: 0 },
    };
    let start = match w.start_loc {
        Some(s) => s,
        None => Xyhw { x: 0, y: 0, w: 0, h: 0 },
    };
    Window {
        floating_offsets: Some(
            Xyhw {
                x: o.x,
                y: o.y,
                w: max_s(clamp_offset_s(start.w + dw), -(w.normal.w as int)) as i32,
                h: max_s(clamp_offset_s(start.h + dh), -(w.normal.h as int)) as i32,
            },
        ),
        ..w
    }
}

pub open spec fn max_s(a: int, b: int) -> int {
    if a >= b {
        a
    } else {
        b
    }
}

impl Manager {
    /// A window is being resized: update its floating size from the
    /// drag-start size.  Returns false only when the handle is unknown.
    pub fn window_resize_handler(&mut self, handle: &WindowHandle, offset_w: i32, offset_h: i32)
        -> (r: bool)
        requires
            old(self).wf(),
        ensures
            final(self).wf(),
            final(self).config == old(self).config,
            final(self).state.same_base(old(self).state),
            final(self).state.focus_manager == old(self).state.focus_manager,
            final(self).state.workspaces == old(self).state.workspaces,
            final(self).state.actions == old(self).state.actions,
            match helpers::find_handle_idx(old(self).state.windows@, *handle) {
                None => r == false && *final(self) == *old(self),
                Some(i) => r == true && final(self).state.windows@ == old(
                    self,
                ).state.windows@.update(
                    i,
                    resized_window_s(
                        old(self).state.windows@[i],
                        offset_w as int,
                        offset_h as int,
                    ),
                ),
            },
    {
        let ghost st0 = self.state;
        let idx = match helpers::position_of_handle(&self.state.windows, *handle) {
            Some(i) => i,
            None => {
                return false;
            },
        };
        let mut w = self.state.windows.remove(idx);
        process_window_size(&mut w, offset_w, offset_h);
        self.state.windows.insert(idx, w);
        proof {
            let i = idx as int;
            assert(self.state.windows@ =~= st0.windows@.update(i, self.state.windows@[i]));
            assert forall|k: int|
                0 <= k < self.state.windows@.len() implies (#[trigger] self
                .state.windows@[k]).wf() by {
                if k != i {
                    assert(self.state.windows@[k] == st0.windows@[k]);
                }
            }
            assert forall|k: int, j: int|
                0 <= k < j < self.state.windows@.len() implies (#[trigger] self
                .state.windows@[k]).handle != (#[trigger] self.state.windows@[j]).handle by {
                assert(st0.windows@[k].handle != st0.windows@[j].handle);
            }
        }
        true
    }
}

/// Apply a resize delta to the window's floating offsets, from the size
/// captured at drag begin.
fn process_window_size(window: &mut Window, offset_w: i32, offset_h: i32)
    requires
        old(window).wf(),
    ensures
        *final(window) == resized_window_s(*old(window), offset_w as int, offset_h as int),
        final(window).wf(),
{
    let mut offset = match window.get_floating_offsets() {
        Some(o) => o,
        None => Xyhw::zero(),
    };
    let start = match window.start_loc {
        Some(s) => s,
        None => Xyhw::zero(),
    };
    let new_w = clamp_offset(start.w as i64 + offset_w as i64);
    let new_h = clamp_offset(start.h as i64 + offset_h as i64);
    offset.w = if new_w >= -window.normal.w {
        new_w
    } else {
        -window.normal.w
    };
    offset.h = if new_h >= -window.normal.h {
        new_h
    } else {
        -window.normal.h
    };
    window.set_floating_offsets(Some(offset));
}

} // verus!
