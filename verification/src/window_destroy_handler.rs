//! Window destroyed: removal from the shared list, dock-avoidance
//! recomputation, and deterministic focus restoration.
//!
//! When the destroyed window was the focused one, focus goes to the window
//! under the pointer (sloppy focus with mouse-follow), else to the resolved
//! transient parent, else to the precomputed successor on the focused
//! workspace, else an explicit unfocus is queued and a `None` sentinel is
//! pushed onto the focus history.

use vstd::prelude::*;

use crate::display_action::DisplayAction;
use crate::helpers;
use crate::manager::{next_or_previous_s, resolve_transient_s, Manager};
use crate::state::upsert_tag_s;
use crate::window::{Window, WindowHandle};

verus! {

/// The window does not carry handle `h`.
pub open spec fn keep_other(h: WindowHandle) -> spec_fn(Window) -> bool {
    |w: Window| w.handle != h
}

/// The per-tag entry does not point at handle `h`.
pub open spec fn entry_not_for(h: WindowHandle) -> spec_fn((usize, WindowHandle)) -> bool {
    |p: (usize, WindowHandle)| p.1 != h
}

/// A focus successor reported by `get_next_or_previous_handle` is another
/// window of the list.
proof fn lemma_succ_in_windows(state: crate::state::State, h: WindowHandle)
    requires
        state.wf(),
    ensures
        match next_or_previous_s(state, h) {
            Some(s) => s != h && helpers::handle_in(state.windows@, s),
            None => true,
        },
{
    match state.focus_manager.focused_workspace_idx_s(state.workspaces@.len() as int) {
        None => {},
        Some(wi) => {
            let ws = state.workspaces@[wi];
            let p = crate::manager::managed_by(ws);
            let sub = state.windows@.filter(p);
            let hs = helpers::handles_of(sub);
            helpers::lemma_find_idx_spec(hs, helpers::handle_is(h));
            let key = |w: Window| w.handle;
            assert forall|i: int, j: int|
                0 <= i < j < state.windows@.len() implies key(state.windows@[i]) != key(
                state.windows@[j],
            ) by {}
            helpers::lemma_filter_distinct_keys(state.windows@, p, key);
            assert forall|j: int| 0 <= j < sub.len() implies helpers::handle_in(
                state.windows@,
                #[trigger] hs[j],
            ) by {
                assert(hs[j] == sub[j].handle);
                assert(sub.contains(sub[j]));
                state.windows@.lemma_filter_contains_rev(p, sub[j]);
                let k = choose|k: int|
                    0 <= k < state.windows@.len() && state.windows@[k] == sub[j];
            }
            match helpers::find_idx(hs, helpers::handle_is(h)) {
                None => {},
                Some(i) => {
                    assert(helpers::handle_is(h)(hs[i]));
                    assert(hs[i] == sub[i].handle);
                    if i + 1 < hs.len() {
                        assert(key(sub[i]) != key(sub[i + 1]));
                    } else if i > 0 {
                        assert(key(sub[i - 1]) != key(sub[i]));
                    }
                },
            }
        },
    }
}

impl Manager {
    /// A window was destroyed: forget it, recompute dock avoidance, and
    /// restore focus deterministically if it was the focused window.
    /// Reports whether a render is needed, which is exactly when the
    /// removed window was visible; an unknown handle is a no-op.
    #[verifier::rlimit(100)]
    pub fn window_destroyed_handler(&mut self, handle: &WindowHandle) -> (r: bool)
        requires
            old(self).wf(),
        ensures
            final(self).wf(),
            final(self).config == old(self).config,
            final(self).state.same_base(old(self).state),
            final(self).state.same_focus_flags(old(self).state),
            match helpers::find_handle_idx(old(self).state.windows@, *handle) {
                None => r == false && *final(self) == *old(self),
                Some(i) => {
                    let st0 = old(self).state;
                    let w = st0.windows@[i];
                    let kept = st0.windows@.filter(keep_other(*handle));
                    let purged = st0.focus_manager.tags_last_window@.filter(
                        entry_not_for(*handle),
                    );
                    let succ = next_or_previous_s(st0, *handle);
                    let was_focused = st0.focus_manager.focused_window_s() == Some(*handle);
                    let parent = resolve_transient_s(kept, w.transient, kept.len() + 1);
                    &&& r == w.visible
                    &&& final(self).state.windows@ == kept
                    &&& final(self).state.workspaces@.len() == st0.workspaces@.len()
                    &&& forall|wi: int|
                        0 <= wi < st0.workspaces@.len() ==> crate::avoidance::avoid_updated(
                            st0.workspaces@[wi],
                            #[trigger] final(self).state.workspaces@[wi],
                            kept,
                        )
                    &&& (!was_focused ==> {
                        &&& final(self).state.actions == st0.actions
                        &&& final(self).state.focus_manager.window_history == st0
                            .focus_manager.window_history
                        &&& final(self).state.focus_manager.tags_last_window@ == purged
                    })
                    &&& (was_focused ==> {
                        if st0.focus_manager.behaviour.is_sloppy_s()
                            && st0.focus_manager.sloppy_mouse_follows_focus {
                            &&& final(self).state.actions@ == st0.actions@.push(
                                DisplayAction::FocusWindowUnderCursor,
                            )
                            &&& final(self).state.focus_manager.window_history == st0
                                .focus_manager.window_history
                            &&& final(self).state.focus_manager.tags_last_window@ == purged
                        } else if parent is Some {
                            let ph = parent.unwrap().handle;
                            &&& final(self).state.actions@ == st0.actions@.push(
                                DisplayAction::FocusWindow(ph),
                            )
                            &&& final(self).state.focus_manager.window_history@ == seq![
                                Some(ph),
                            ] + st0.focus_manager.window_history@
                            &&& final(self).state.focus_manager.tags_last_window@ == match parent
                                .unwrap().tag {
                                Some(t) => upsert_tag_s(purged, t, ph),
                                None => purged,
                            }
                        } else if succ is Some {
                            let sh = succ.unwrap();
                            &&& final(self).state.actions@ == st0.actions@.push(
                                DisplayAction::FocusWindow(sh),
                            )
                            &&& final(self).state.focus_manager.window_history@ == seq![
                                Some(sh),
                            ] + st0.focus_manager.window_history@
                            &&& (match helpers::find_handle_idx(kept, sh) {
                                Some(j) => final(self).state.focus_manager.tags_last_window@
                                    == match kept[j].tag {
                                    Some(t) => upsert_tag_s(purged, t, sh),
                                    None => purged,
                                },
                                None => false,
                            })
                        } else {
                            &&& final(self).state.actions@ == st0.actions@.push(
                                DisplayAction::Unfocus(Some(*handle), w.floating_s()),
                            )
                            &&& final(self).state.focus_manager.window_history@ == seq![
                                None::<WindowHandle>,
                            ] + st0.focus_manager.window_history@
                            &&& final(self).state.focus_manager.tags_last_window@ == purged
                        }
                    })
                },
            },
    {
        let ghost st0 = self.state;
        // Find the focus successor on the focused workspace before any
        // mutation.
        let new_handle = self.get_next_or_previous_handle(handle);
        // If there is a transient parent we would want to focus it.
        let idx = match helpers::position_of_handle(&self.state.windows, *handle) {
            Some(i) => i,
            None => {
                return false;
            },
        };
        let transient = self.state.windows[idx].transient;
        let floating = self.state.windows[idx].floating();
        let visible = self.state.windows[idx].visible;

        retain_tags_without(&mut self.state.focus_manager.tags_last_window, *handle);
        proof {
            helpers::lemma_filter_distinct_keys(
                st0.focus_manager.tags_last_window@,
                entry_not_for(*handle),
                |p: (usize, WindowHandle)| p.0,
            );
        }
        retain_windows_without(&mut self.state.windows, *handle);
        proof {
            let kept = st0.windows@.filter(keep_other(*handle));
            helpers::lemma_filter_distinct_keys(
                st0.windows@,
                keep_other(*handle),
                |w: Window| w.handle,
            );
            assert forall|k: int| 0 <= k < kept.len() implies (#[trigger] kept[k]).wf() by {
                assert(kept.contains(kept[k]));
                st0.windows@.lemma_filter_contains_rev(keep_other(*handle), kept[k]);
                let q = choose|q: int| 0 <= q < st0.windows@.len() && st0.windows@[q] == kept[k];
            }
        }

        // Make sure the workspaces do not draw on the docks.
        self.state.update_workspace_avoid_list();

        // Make sure focus is recalculated if we closed the currently
        // focused window.
        let was_focused = match self.state.focus_manager.window_history.get(0) {
            Some(front) => match front {
                Some(h) => h == handle,
                None => false,
            },
            None => false,
        };
        if was_focused {
            if self.state.focus_manager.behaviour.is_sloppy()
                && self.state.focus_manager.sloppy_mouse_follows_focus {
                self.state.actions.push(DisplayAction::FocusWindowUnderCursor);
            } else {
                let parent_handle = match self.find_transient_parent(
                    &self.state.windows,
                    transient,
                ) {
                    Some(p) => Some(p.handle),
                    None => None,
                };
                if let Some(ph) = parent_handle {
                    proof {
                        let kept = st0.windows@.filter(keep_other(*handle));
                        crate::manager::lemma_resolve_transient_elem(
                            kept,
                            transient,
                            kept.len() + 1,
                        );
                        let parent = resolve_transient_s(kept, transient, kept.len() + 1);
                        let pi = choose|pi: int|
                            0 <= pi < kept.len() && kept[pi] == parent.unwrap();
                        assert(keep_other(*handle)(kept[pi])) by {
                            st0.windows@.lemma_filter_pred(keep_other(*handle), pi);
                        }
                        helpers::lemma_find_idx_spec(kept, helpers::win_handle_is(ph));
                        match helpers::find_handle_idx(kept, ph) {
                            Some(j) => {
                                if j != pi {
                                    assert(kept[j].handle == kept[pi].handle);
                                }
                                assert(kept[j] == parent.unwrap());
                            },
                            None => {
                                assert(!helpers::win_handle_is(ph)(kept[pi]));
                            },
                        }
                    }
                    self.state.focus_window(&ph);
                } else if let Some(nh) = new_handle {
                    proof {
                        lemma_succ_in_windows(st0, *handle);
                        let kept = st0.windows@.filter(keep_other(*handle));
                        let j = choose|j: int|
                            0 <= j < st0.windows@.len() && st0.windows@[j].handle == nh;
                        st0.windows@.lemma_filter_contains(keep_other(*handle), j);
                        assert(kept.contains(st0.windows@[j]));
                        let k = choose|k: int| 0 <= k < kept.len() && kept[k] == st0.windows@[j];
                        helpers::lemma_find_idx_spec(kept, helpers::win_handle_is(nh));
                        match helpers::find_handle_idx(kept, nh) {
                            Some(q) => {},
                            None => {
                                assert(!helpers::win_handle_is(nh)(kept[k]));
                            },
                        }
                    }
                    self.state.focus_window(&nh);
                } else {
                    let act = DisplayAction::Unfocus(Some(*handle), floating);
                    self.state.actions.push(act);
                    self.state.focus_manager.window_history.insert(0, None);
                }
            }
        }

        // Only update windows if this window was visible.
        visible
    }
}

/// Remove every window carrying handle `h`, keeping list order.
fn retain_windows_without(windows: &mut Vec<Window>, h: WindowHandle)
    ensures
        final(windows)@ == old(windows)@.filter(keep_other(h)),
{
    let ghost orig = windows@;
    let mut kept: Vec<Window> = Vec::new();
    let ghost mut done: int = 0;
    proof {
        assert(orig.take(0).filter(keep_other(h)) =~= Seq::<Window>::empty());
        assert(windows@ =~= orig.skip(0));
    }
    while windows.len() > 0
        invariant
            0 <= done <= orig.len(),
            windows@ == orig.skip(done),
            kept@ == orig.take(done).filter(keep_other(h)),
        decreases windows@.len(),
    {
        let w = windows.remove(0);
        proof {
            assert(orig.skip(done)[0] == orig[done]);
            assert(w == orig[done]);
            assert(orig.take(done + 1) =~= orig.take(done).push(orig[done]));
            helpers::lemma_filter_push(orig.take(done), orig[done], keep_other(h));
            assert(orig.skip(done).skip(1) =~= orig.skip(done + 1));
        }
        if !handles_equal(w.handle, h) {
            kept.push(w);
        }
        proof {
            done = done + 1;
        }
    }
    proof {
        assert(orig.take(done) =~= orig);
    }
    *windows = kept;
}

/// Remove every per-tag entry pointing at handle `h`, keeping order.
fn retain_tags_without(v: &mut Vec<(usize, WindowHandle)>, h: WindowHandle)
    ensures
        final(v)@ == old(v)@.filter(entry_not_for(h)),
{
    let ghost orig = v@;
    let mut kept: Vec<(usize, WindowHandle)> = Vec::new();
    let mut i: usize = 0;
    proof {
        assert(orig.take(0).filter(entry_not_for(h)) =~= Seq::<(usize, WindowHandle)>::empty());
    }
    while i < v.len()
        invariant
            0 <= i <= orig.len(),
            v@ == orig,
            kept@ == orig.take(i as int).filter(entry_not_for(h)),
        decreases orig.len() - i,
    {
        proof {
            assert(orig.take(i + 1) =~= orig.take(i as int).push(orig[i as int]));
            helpers::lemma_filter_push(orig.take(i as int), orig[i as int], entry_not_for(h));
        }
        let entry = v[i];
        if !handles_equal(entry.1, h) {
            kept.push(entry);
        }
        i = i + 1;
    }
    proof {
        assert(orig.take(orig.len() as int) =~= orig);
    }
    *v = kept;
}

/// Handle equality.
fn handles_equal(a: WindowHandle, b: WindowHandle) -> (r: bool)
    ensures
        r == (a == b),
{
    a == b
}

} // verus!
