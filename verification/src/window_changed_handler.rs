//! Window changed: apply a property-change delta to the matched window,
//! recompute dock avoidance for dock windows, nudge docks and restack on
//! fullscreen transitions, and refresh cached layout metadata on strut
//! changes.

use vstd::prelude::*;

use crate::display_action::DisplayAction;
use crate::geometry::Xyhw;
use crate::helpers;
use crate::manager::{resolve_transient_s, Manager};
use crate::state::ws_with_avoided_s;
use crate::window::{Window, WindowHandle, WindowState, WindowType};
use crate::workspace::Workspace;

verus! {

/// The workspace shows tag `t`.
pub open spec fn ws_tag_is(t: Option<usize>) -> spec_fn(Workspace) -> bool {
    |ws: Workspace| ws.tag == t
}

/// The window is a dock.
pub open spec fn kind_dock() -> spec_fn(Window) -> bool {
    |w: Window| w.kind == WindowType::Dock
}

/// A property-change event: a handle and the optional updated fields.
#[derive(Clone, Debug)]
pub struct WindowChange {
    pub handle: WindowHandle,
    pub states: Option<Vec<WindowState>>,
    pub transient: Option<Option<WindowHandle>>,
    pub strut: Option<Xyhw>,
    pub kind: Option<WindowType>,
    /// Requested floating geometry, absolute.
    pub floating: Option<Xyhw>,
}

impl WindowChange {
    pub open spec fn wf(self) -> bool {
        &&& (self.strut matches Some(s) ==> s.wf())
        &&& (self.floating matches Some(f) ==> f.wf())
    }

    pub fn new(handle: WindowHandle) -> (r: WindowChange)
        ensures
            r.handle == handle,
            r.states is None,
            r.transient is None,
            r.strut is None,
            r.kind is None,
            r.floating is None,
            r.wf(),
    {
        WindowChange {
            handle,
            states: None,
            transient: None,
            strut: None,
            kind: None,
            floating: None,
        }
    }

    /// The requested floating rectangle repositioned against the container
    /// used for relative placement, when one is given.
    pub open spec fn float_target_s(self, w: Window, container: Option<Xyhw>) -> Xyhw {
        let r = self.floating.unwrap();
        match container {
            Some(c) => r.center_relative_s(c, w.border as int),
            None => r,
        }
    }

    /// The window after this delta: each present field replaces the
    /// window's; a floating-geometry change updates the requested
    /// rectangle and, while the window floats, moves its exact rectangle
    /// to the requested one centered in the container.
    pub open spec fn updated_window_s(self, w: Window, container: Option<Xyhw>) -> Window {
        let w1 = if self.states is Some {
            Window { states: self.states.unwrap(), ..w }
        } else {
            w
        };
        let w2 = if self.transient is Some {
            Window { transient: self.transient.unwrap(), ..w1 }
        } else {
            w1
        };
        let w3 = if self.strut is Some {
            Window { strut: self.strut, ..w2 }
        } else {
            w2
        };
        let w4 = if self.kind is Some {
            Window { kind: self.kind.unwrap(), ..w3 }
        } else {
            w3
        };
        if self.floating is Some {
            let w5 = Window { requested: self.floating, ..w4 };
            if w5.floating_s() {
                w5.set_floating_exact_s(self.float_target_s(w, container))
            } else {
                w5
            }
        } else {
            w4
        }
    }

    /// Whether the delta actually changes anything, field by field.
    pub open spec fn changed_s(self, w: Window) -> bool {
        ||| (self.states matches Some(s) && s@ != w.states@)
        ||| (self.transient matches Some(t) && t != w.transient)
        ||| (self.strut matches Some(s) && Some(s) != w.strut)
        ||| (self.kind matches Some(k) && k != w.kind)
        ||| (self.floating matches Some(f) && Some(f) != w.requested)
    }

    /// Apply the delta to the window; reports whether anything changed.
    pub fn update(self, window: &mut Window, container: Option<Xyhw>) -> (r: bool)
        requires
            old(window).wf(),
            self.wf(),
            container matches Some(c) ==> c.within(
                crate::geometry::COORD_LIMIT as int + crate::geometry::OFFSET_LIMIT as int,
            ),
        ensures
            *final(window) == self.updated_window_s(*old(window), container),
            r == self.changed_s(*old(window)),
            final(window).wf(),
            final(window).handle == old(window).handle,
    {
        let ghost w0 = *window;
        let mut changed = false;
        if let Some(states) = self.states {
            if !states_equal(&states, &window.states) {
                changed = true;
            }
            window.states = states;
        }
        if let Some(transient) = self.transient {
            if !opt_handle_eq(transient, window.transient) {
                changed = true;
            }
            window.transient = transient;
        }
        if let Some(strut) = self.strut {
            let differs = match window.strut {
                Some(old_strut) => !(old_strut == strut),
                None => true,
            };
            if differs {
                changed = true;
            }
            window.strut = Some(strut);
        }
        if let Some(kind) = self.kind {
            if kind != window.kind {
                changed = true;
            }
            window.kind = kind;
        }
        if let Some(floating) = self.floating {
            let differs = match window.requested {
                Some(old_req) => !(old_req == floating),
                None => true,
            };
            if differs {
                changed = true;
            }
            window.requested = Some(floating);
            if window.floating() {
                let target = match container {
                    Some(c) => {
                        let mut rect = floating;
                        rect.center_relative(c, window.border);
                        rect
                    },
                    None => floating,
                };
                window.set_floating_exact(target);
            }
        }
        changed
    }
}

impl Manager {
    /// A window's properties changed: apply the delta against the resolved
    /// container rectangle, recompute dock avoidance when a dock changed,
    /// nudge docks and restack on fullscreen transitions, and refresh the
    /// cached usable areas on strut changes.  Reports whether the delta
    /// changed anything; an unknown handle is a complete no-op.
    #[verifier::rlimit(100)]
    pub fn window_changed_handler(&mut self, change: WindowChange) -> (r: bool)
        requires
            old(self).wf(),
            change.wf(),
        ensures
            final(self).wf(),
            final(self).config == old(self).config,
            final(self).state.same_base(old(self).state),
            final(self).state.same_focus_flags(old(self).state),
            final(self).state.focus_manager == old(self).state.focus_manager,
            ({
                let st0 = old(self).state;
                let strut_changed = change.strut is Some;
                match helpers::find_handle_idx(st0.windows@, change.handle) {
                    None => r == false && *final(self) == *old(self),
                    Some(i) => {
                        let w = st0.windows@[i];
                        let container = change_container_s(st0, w);
                        let updated = change.updated_window_s(w, container);
                        let new_windows = st0.windows@.update(i, updated);
                        let fullscreen_changed = change.states is Some && (
                        change.states.unwrap()@.contains(WindowState::Fullscreen)
                            || w.is_fullscreen_s());
                        let dock_changed = updated.kind == WindowType::Dock;
                        let acts1 = if fullscreen_changed {
                            let with_refresh = match helpers::find_idx(
                                new_windows,
                                kind_dock(),
                            ) {
                                Some(d) => st0.actions@.push(
                                    DisplayAction::RefreshWindow(new_windows[d].handle),
                                ),
                                None => st0.actions@,
                            };
                            with_refresh.push(final(self).state.actions@.last())
                        } else {
                            st0.actions@
                        };
                        &&& r == change.changed_s(w)
                        &&& final(self).state.windows@ == new_windows
                        &&& final(self).state.actions@ == acts1
                        &&& (fullscreen_changed ==> crate::state::is_restack_of(
                            final(self).state.actions@.last(),
                            new_windows,
                        ))
                        &&& final(self).state.workspaces@.len() == st0.workspaces@.len()
                        &&& (forall|wi: int|
                            0 <= wi < st0.workspaces@.len() ==> (if dock_changed {
                                crate::avoidance::avoid_updated(
                                    st0.workspaces@[wi],
                                    #[trigger] final(self).state.workspaces@[wi],
                                    new_windows,
                                )
                            } else if strut_changed {
                                final(self).state.workspaces@[wi] == ws_with_avoided_s(
                                    st0.workspaces@[wi],
                                )
                            } else {
                                final(self).state.workspaces@[wi] == st0.workspaces@[wi]
                            }))
                    },
                }
            }),
    {
        let ghost st0 = self.state;
        let strut_changed = change.strut.is_some();
        let idx = match helpers::position_of_handle(&self.state.windows, change.handle) {
            Some(i) => Some(i),
            None => None,
        };
        let mut changed = false;
        let mut fullscreen_changed = false;
        match idx {
            None => {},
            Some(i) => {
                if let Some(states) = &change.states {
                    let contains_fs = states_contain(states, WindowState::Fullscreen);
                    fullscreen_changed = contains_fs || self.state.windows[i].is_fullscreen();
                }
                // The container rectangle used for relative repositioning:
                // the transient parent's exact rectangle, else the matching
                // workspace of a dialog.
                let container = match self.find_transient_parent(
                    &self.state.windows,
                    self.state.windows[i].transient,
                ) {
                    Some(parent) => {
                        proof {
                            crate::manager::lemma_resolve_transient_elem(
                                st0.windows@,
                                st0.windows@[i as int].transient,
                                st0.windows@.len() + 1,
                            );
                        }
                        Some(parent.exact_xyhw())
                    },
                    None => {
                        if self.state.windows[i].kind == WindowType::Dialog {
                            match find_workspace_with_tag(
                                &self.state.workspaces,
                                self.state.windows[i].tag,
                            ) {
                                Some(wsi) => Some(self.state.workspaces[wsi].xyhw),
                                None => None,
                            }
                        } else {
                            None
                        }
                    },
                };
                let mut w = self.state.windows.remove(i);
                changed = change.update(&mut w, container);
                let is_dock = w.kind == WindowType::Dock;
                self.state.windows.insert(i, w);
                proof {
                    assert(self.state.windows@ =~= st0.windows@.update(
                        i as int,
                        self.state.windows@[i as int],
                    ));
                    assert forall|k: int|
                        0 <= k < self.state.windows@.len() implies (#[trigger] self
                        .state.windows@[k]).wf() by {
                        if k != i {
                            assert(self.state.windows@[k] == st0.windows@[k]);
                        }
                    }
                    assert forall|k: int, j: int|
                        0 <= k < j < self.state.windows@.len() implies (#[trigger] self
                        .state.windows@[k]).handle != (#[trigger] self
                        .state.windows@[j]).handle by {
                        assert(st0.windows@[k].handle != st0.windows@[j].handle);
                    }
                }
                if is_dock {
                    // Don't let changes from docks re-render the worker;
                    // the avoid lists are refreshed and a later render
                    // will naturally occur.
                    self.state.update_workspace_avoid_list();
                }
            },
        }
        if fullscreen_changed {
            // Nudge `dock` windows once, so they can receive mouse click
            // events again: they are excluded from the general update
            // loop.
            match find_first_dock(&self.state.windows) {
                Some(d) => {
                    let dock_handle = self.state.windows[d].handle;
                    self.state.actions.push(DisplayAction::RefreshWindow(dock_handle));
                },
                None => {},
            }
            // Reorder windows.
            self.state.sort_windows();
        }
        if strut_changed && idx.is_some() {
            self.state.update_static();
        }
        changed
    }
}

/// The container rectangle used while applying a change: the resolved
/// transient parent's exact rectangle; else, for a dialog, the rectangle
/// of the workspace matching its tag.
pub open spec fn change_container_s(state: crate::state::State, w: Window) -> Option<Xyhw> {
    match resolve_transient_s(state.windows@, w.transient, state.windows@.len() + 1) {
        Some(parent) => Some(parent.exact_xyhw_s()),
        None => if w.kind == WindowType::Dialog {
            match helpers::find_idx(state.workspaces@, ws_tag_is(w.tag)) {
                Some(i) => Some(state.workspaces@[i].xyhw),
                None => None,
            }
        } else {
            None
        },
    }
}

/// Index of the first workspace showing tag `t`.
fn find_workspace_with_tag(workspaces: &Vec<Workspace>, t: Option<usize>) -> (r: Option<usize>)
    ensures
        match r {
            Some(u) => helpers::find_idx(workspaces@, ws_tag_is(t)) == Some(u as int) && u
                < workspaces@.len(),
            None => helpers::find_idx(workspaces@, ws_tag_is(t)) is None,
        },
{
    proof {
        helpers::lemma_find_idx_spec(workspaces@, ws_tag_is(t));
    }
    let mut i: usize = 0;
    while i < workspaces.len()
        invariant
            0 <= i <= workspaces@.len(),
            forall|j: int| 0 <= j < i ==> !ws_tag_is(t)(#[trigger] workspaces@[j]),
        decreases workspaces@.len() - i,
    {
        let tag_match = match (workspaces[i].tag, t) {
            (Some(a), Some(b)) => a == b,
            (None, None) => true,
            _ => false,
        };
        if tag_match {
            proof {
                assert(ws_tag_is(t)(workspaces@[i as int]));
                match helpers::find_idx(workspaces@, ws_tag_is(t)) {
                    Some(k) => {
                        if k < i {
                            assert(ws_tag_is(t)(workspaces@[k]));
                        } else if k > i {
                            assert(!ws_tag_is(t)(workspaces@[i as int]));
                        }
                    },
                    None => {
                        assert(!ws_tag_is(t)(workspaces@[i as int]));
                    },
                }
            }
            return Some(i);
        }
        i = i + 1;
    }
    proof {
        match helpers::find_idx(workspaces@, ws_tag_is(t)) {
            Some(k) => {
                assert(ws_tag_is(t)(workspaces@[k]));
            },
            None => {},
        }
    }
    None
}

/// Index of the first dock window.
fn find_first_dock(windows: &Vec<Window>) -> (r: Option<usize>)
    ensures
        match r {
            Some(u) => helpers::find_idx(windows@, kind_dock()) == Some(u as int) && u
                < windows@.len(),
            None => helpers::find_idx(windows@, kind_dock()) is None,
        },
{
    proof {
        helpers::lemma_find_idx_spec(windows@, kind_dock());
    }
    let mut i: usize = 0;
    while i < windows.len()
        invariant
            0 <= i <= windows@.len(),
            forall|j: int| 0 <= j < i ==> !kind_dock()(#[trigger] windows@[j]),
        decreases windows@.len() - i,
    {
        if windows[i].kind == WindowType::Dock {
            proof {
                assert(kind_dock()(windows@[i as int]));
                match helpers::find_idx(windows@, kind_dock()) {
                    Some(k) => {
                        if k < i {
                            assert(kind_dock()(windows@[k]));
                        } else if k > i {
                            assert(!kind_dock()(windows@[i as int]));
                        }
                    },
                    None => {
                        assert(!kind_dock()(windows@[i as int]));
                    },
                }
            }
            return Some(i);
        }
        i = i + 1;
    }
    proof {
        match helpers::find_idx(windows@, kind_dock()) {
            Some(k) => {
                assert(kind_dock()(windows@[k]));
            },
            None => {},
        }
    }
    None
}

/// Element-wise equality of two state lists.
fn states_equal(a: &Vec<WindowState>, b: &Vec<WindowState>) -> (r: bool)
    ensures
        r == (a@ == b@),
{
    if a.len() != b.len() {
        proof {
            assert(a@.len() != b@.len());
        }
        return false;
    }
    let mut i: usize = 0;
    while i < a.len()
        invariant
            0 <= i <= a@.len(),
            a@.len() == b@.len(),
            forall|j: int| 0 <= j < i ==> a@[j] == b@[j],
        decreases a@.len() - i,
    {
        if a[i] != b[i] {
            return false;
        }
        i = i + 1;
    }
    proof {
        assert(a@ =~= b@);
    }
    true
}

/// Whether the list contains the given state.
fn states_contain(v: &Vec<WindowState>, s: WindowState) -> (r: bool)
    ensures
        r == v@.contains(s),
{
    let mut i: usize = 0;
    while i < v.len()
        invariant
            0 <= i <= v@.len(),
            forall|j: int| 0 <= j < i ==> v@[j] != s,
        decreases v@.len() - i,
    {
        if v[i] == s {
            return true;
        }
        i = i + 1;
    }
    proof {
        if v@.contains(s) {
            let j = choose|j: int| 0 <= j < v@.len() && v@[j] == s;
        }
    }
    false
}

/// Equality of optional handles.
fn opt_handle_eq(a: Option<WindowHandle>, b: Option<WindowHandle>) -> (r: bool)
    ensures
        r == (a == b),
{
    match (a, b) {
        (Some(x), Some(y)) => x == y,
        (None, None) => true,
        _ => false,
    }
}

} // verus!
