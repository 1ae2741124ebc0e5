//! The manager: the shared state plus the configuration, with the helpers
//! every event handler shares.

use vstd::prelude::*;

use crate::config::Config;
use crate::geometry::Xyhw;
use crate::helpers;
use crate::state::State;
use crate::window::{clamp_offset, clamp_offset_s, Window, WindowHandle};
use crate::workspace::{Layout, Screen, Workspace};

verus! {

/// Walk the transient back-reference chain from `t`: while the current
/// handle resolves to a window that itself has a transient link, follow
/// it; return the window at the end of the chain.  The walk is bounded by
/// `fuel`, so a transient cycle resolves to `None` instead of hanging.
pub open spec fn resolve_transient_s(
    ws: Seq<Window>,
    t: Option<WindowHandle>,
    fuel: nat,
) -> Option<Window>
    decreases fuel,
{
    match t {
        None => None,
        Some(h) => {
            if fuel == 0 {
                None
            } else {
                match helpers::find_handle_idx(ws, h) {
                    None => None,
                    Some(i) => match ws[i].transient {
                        None => Some(ws[i]),
                        Some(h2) => resolve_transient_s(ws, Some(h2), (fuel - 1) as nat),
                    },
                }
            }
        },
    }
}

/// A resolved transient parent is one of the windows in the list.
pub proof fn lemma_resolve_transient_elem(ws: Seq<Window>, t: Option<WindowHandle>, fuel: nat)
    ensures
        resolve_transient_s(ws, t, fuel) matches Some(w) ==> exists|i: int|
            0 <= i < ws.len() && ws[i] == w,
    decreases fuel,
{
    match t {
        None => {},
        Some(h) => {
            if fuel > 0 {
                helpers::lemma_find_idx_spec(ws, helpers::win_handle_is(h));
                match helpers::find_handle_idx(ws, h) {
                    None => {},
                    Some(i) => match ws[i].transient {
                        None => {
                            assert(0 <= i < ws.len() && ws[i] == ws[i]);
                        },
                        Some(h2) => {
                            lemma_resolve_transient_elem(ws, Some(h2), (fuel - 1) as nat);
                        },
                    },
                }
            }
        },
    }
}

/// The pair binds a scratchpad to a process id list containing `pid`.
pub open spec fn scratch_match(pid: Option<u32>) -> spec_fn((String, Vec<u32>)) -> bool {
    |p: (String, Vec<u32>)| exists|j: int| 0 <= j < p.1@.len() && pid == Some(p.1@[j])
}

/// The window's process id is bound to some active scratchpad.
pub open spec fn is_scratchpad_s(active: Seq<(String, Vec<u32>)>, pid: Option<u32>) -> bool {
    helpers::find_idx(active, scratch_match(pid)) is Some
}

/// The window belongs to this workspace and takes part in tiling.
pub open spec fn managed_by(ws: Workspace) -> spec_fn(Window) -> bool {
    |w: Window| ws.is_managed_s(w)
}

/// The neighbour of `h` in a handle list: the next handle if one follows,
/// else the previous one, else `None`.
pub open spec fn succ_of_s(hs: Seq<WindowHandle>, h: WindowHandle) -> Option<WindowHandle> {
    match helpers::find_idx(hs, helpers::handle_is(h)) {
        None => None,
        Some(i) => if i + 1 < hs.len() {
            Some(hs[i + 1])
        } else if i > 0 {
            Some(hs[i - 1])
        } else {
            None
        },
    }
}

/// The focus successor of `h`: its neighbour among the managed windows of
/// the currently focused workspace, in list order.
pub open spec fn next_or_previous_s(state: State, h: WindowHandle) -> Option<WindowHandle> {
    match state.focus_manager.focused_workspace_idx_s(state.workspaces@.len() as int) {
        None => None,
        Some(wi) => succ_of_s(
            helpers::handles_of(state.windows@.filter(managed_by(state.workspaces@[wi]))),
            h,
        ),
    }
}

/// The window after a drag update: the floating offsets' position becomes
/// the drag-start position shifted by the delta (clamped into the offset
/// range); the offsets' size components are kept.
pub open spec fn processed_window_s(w: Window, dx: int, dy: int) -> Window {
    let o = match w.floating_offsets {
        Some(o) => o,
        None => Xyhw { x: 0, y: 0, w: 0, h: 0 },
    };
    let start = match w.start_loc {
        Some(s) => s,
        None => Xyhw { x: 0, y: 0, w: 0, h: 0 },
    };
    Window {
        floating_offsets: Some(
            Xyhw {
                x: clamp_offset_s(start.x + dx) as i32,
                y: clamp_offset_s(start.y + dy) as i32,
                w: o.w,
                h: o.h,
            },
        ),
        ..w
    }
}

/// The shared state and the configuration, operated on by one handler call
/// at a time.
#[derive(Debug)]
pub struct Manager {
    pub state: State,
    pub config: Config,
}

impl Manager {
    pub open spec fn wf(self) -> bool {
        self.state.wf() && self.config.wf()
    }

    pub fn new(config: Config) -> (r: Manager)
        requires
            config.wf(),
        ensures
            r.config == config,
            r.wf(),
            r.state.windows@ == Seq::<Window>::empty(),
            r.state.workspaces@ == Seq::<Workspace>::empty(),
            r.state.actions@.len() == 0,
            r.state.insert_behavior == config.insert_behavior,
            r.state.focus_manager.behaviour == config.focus_behaviour,
            r.state.focus_manager.focus_new_windows == config.focus_new_windows,
            r.state.focus_manager.sloppy_mouse_follows_focus == config.sloppy_mouse_follows_focus,
            r.state.focus_manager.window_history@.len() == 0,
            r.state.focus_manager.workspace_history@.len() == 0,
            r.state.focus_manager.tags_last_window@.len() == 0,
            r.state.active_scratchpads@.len() == 0,
    {
        let state = State::new(&config);
        Manager { state, config }
    }

    /// A manager over a default configuration suited for deterministic
    /// tests: sloppy focus without mouse-follow, new windows not focused,
    /// windows appended at the bottom.
    pub fn new_test(tags: Vec<String>) -> (r: Manager)
        ensures
            r.wf(),
            r.config.insert_behavior == crate::config::InsertBehavior::Bottom,
            r.config.focus_behaviour == crate::focus::FocusBehaviour::Sloppy,
            r.config.focus_new_windows == false,
            r.config.sloppy_mouse_follows_focus == false,
            r.config.disable_window_snap == false,
            r.state.windows@ == Seq::<Window>::empty(),
            r.state.workspaces@ == Seq::<Workspace>::empty(),
            r.state.actions@.len() == 0,
            r.state.insert_behavior == crate::config::InsertBehavior::Bottom,
            r.state.focus_manager.behaviour == crate::focus::FocusBehaviour::Sloppy,
            r.state.focus_manager.focus_new_windows == false,
            r.state.focus_manager.sloppy_mouse_follows_focus == false,
            r.state.focus_manager.window_history@.len() == 0,
            r.state.focus_manager.workspace_history@.len() == 0,
            r.state.focus_manager.tags_last_window@.len() == 0,
            r.state.active_scratchpads@.len() == 0,
    {
        let mut config = Config::default();
        config.focus_new_windows = false;
        config.sloppy_mouse_follows_focus = false;
        config.tags = if tags.len() > 0 {
            Some(tags)
        } else {
            None
        };
        Self::new(config)
    }

    /// A new screen: create a workspace for it on the next tag, and focus
    /// that workspace if none is focused yet.
    pub fn screen_create_handler(&mut self, screen: Screen) -> (r: bool)
        requires
            old(self).wf(),
            screen.xyhw.wf(),
            old(self).state.workspaces@.len() + 1 < usize::MAX,
        ensures
            final(self).wf(),
            r == true,
            final(self).config == old(self).config,
            final(self).state.same_base(old(self).state),
            final(self).state.windows == old(self).state.windows,
            final(self).state.actions == old(self).state.actions,
            final(self).state.focus_manager.window_history
                == old(self).state.focus_manager.window_history,
            final(self).state.focus_manager.tags_last_window
                == old(self).state.focus_manager.tags_last_window,
            final(self).state.focus_manager.behaviour == old(self).state.focus_manager.behaviour,
            final(self).state.focus_manager.focus_new_windows
                == old(self).state.focus_manager.focus_new_windows,
            final(self).state.focus_manager.sloppy_mouse_follows_focus
                == old(self).state.focus_manager.sloppy_mouse_follows_focus,
            final(self).state.workspaces@.len() == old(self).state.workspaces@.len() + 1,
            final(self).state.workspaces@.take(old(self).state.workspaces@.len() as int) == old(
                self,
            ).state.workspaces@,
            ({
                let ws = final(self).state.workspaces@.last();
                &&& ws.tag == Some((old(self).state.workspaces@.len() + 1) as usize)
                &&& ws.xyhw == screen.xyhw
                &&& ws.layout == Layout::MainAndVertStack
                &&& ws.margin_multiplier == 100u32
                &&& ws.avoid@.len() == 0
                &&& ws.xyhw_avoided == screen.xyhw
            }),
            final(self).state.focus_manager.workspace_history@ == if old(
                self,
            ).state.focus_manager.workspace_history@.len() == 0 {
                seq![old(self).state.workspaces@.len() as usize]
            } else {
                old(self).state.focus_manager.workspace_history@
            },
    {
        let idx = self.state.workspaces.len();
        let ws = Workspace::new(Some(idx + 1), screen.xyhw, Layout::MainAndVertStack);
        self.state.workspaces.push(ws);
        if self.state.focus_manager.workspace_history.len() == 0 {
            self.state.focus_manager.workspace_history.insert(0, idx);
        }
        true
    }

    /// Resolve the transient-parent chain of `transient` against the given
    /// window list snapshot.
    pub fn find_transient_parent<'a>(
        &self,
        windows: &'a Vec<Window>,
        transient: Option<WindowHandle>,
    ) -> (r: Option<&'a Window>)
        ensures
            match resolve_transient_s(windows@, transient, windows@.len() + 1) {
                Some(w) => r is Some && *r.unwrap() == w,
                None => r is None,
            },
    {
        let mut cur: WindowHandle = match transient {
            Some(h) => h,
            None => {
                return None;
            },
        };
        let mut remaining: usize = windows.len();
        loop
            invariant
                remaining <= windows@.len(),
                resolve_transient_s(windows@, transient, windows@.len() + 1)
                    == resolve_transient_s(windows@, Some(cur), (remaining + 1) as nat),
            decreases remaining,
        {
            match helpers::position_of_handle(windows, cur) {
                None => {
                    return None;
                },
                Some(i) => {
                    match windows[i].transient {
                        None => {
                            return Some(&windows[i]);
                        },
                        Some(next) => {
                            if remaining == 0 {
                                proof {
                                    assert(resolve_transient_s(windows@, Some(next), 0nat)
                                        is None);
                                }
                                return None;
                            }
                            remaining = remaining - 1;
                            cur = next;
                        },
                    }
                },
            }
        }
    }

    /// Whether the window's process id is bound to an active scratchpad.
    pub fn is_scratchpad(&self, window: &Window) -> (r: bool)
        ensures
            r == is_scratchpad_s(self.state.active_scratchpads@, window.pid),
    {
        find_active_scratchpad(&self.state.active_scratchpads, window.pid).is_some()
    }

    /// Find the next or previous managed window on the currently focused
    /// workspace.  May return `None` if no other window is present.
    pub fn get_next_or_previous_handle(&self, handle: &WindowHandle) -> (r: Option<WindowHandle>)
        ensures
            r == next_or_previous_s(self.state, *handle),
    {
        let ws = match self.state.focus_manager.workspace(&self.state.workspaces) {
            Some(w) => w,
            None => {
                return None;
            },
        };
        let ghost ws0 = *ws;
        let mut sub: Vec<WindowHandle> = Vec::new();
        let mut i: usize = 0;
        proof {
            assert(self.state.windows@.take(0).filter(managed_by(ws0)) =~= Seq::<
                Window,
            >::empty());
            assert(sub@ =~= helpers::handles_of(
                self.state.windows@.take(0).filter(managed_by(ws0)),
            ));
        }
        while i < self.state.windows.len()
            invariant
                0 <= i <= self.state.windows@.len(),
                sub@ == helpers::handles_of(
                    self.state.windows@.take(i as int).filter(managed_by(ws0)),
                ),
            decreases self.state.windows@.len() - i,
        {
            proof {
                let ws_seq = self.state.windows@;
                assert(ws_seq.take(i + 1) =~= ws_seq.take(i as int).push(ws_seq[i as int]));
                helpers::lemma_filter_push(ws_seq.take(i as int), ws_seq[i as int], managed_by(ws0));
                if managed_by(ws0)(ws_seq[i as int]) {
                    assert(helpers::handles_of(ws_seq.take(i + 1).filter(managed_by(ws0)))
                        =~= helpers::handles_of(ws_seq.take(i as int).filter(managed_by(ws0))).push(
                        ws_seq[i as int].handle,
                    ));
                }
            }
            if ws.is_managed(&self.state.windows[i]) {
                sub.push(self.state.windows[i].handle);
            }
            i = i + 1;
        }
        proof {
            assert(self.state.windows@.take(self.state.windows@.len() as int)
                =~= self.state.windows@);
        }
        match helpers::position_in_handles(&sub, *handle) {
            None => None,
            Some(p) => {
                if p + 1 < sub.len() {
                    Some(sub[p + 1])
                } else if p > 0 {
                    Some(sub[p - 1])
                } else {
                    None
                }
            },
        }
    }

    /// Apply a drag delta to the window's floating offsets, from the
    /// position captured at drag begin.
    pub fn process_window(&self, window: &mut Window, offset_x: i32, offset_y: i32)
        ensures
            *final(window) == processed_window_s(*old(window), offset_x as int, offset_y as int),
    {
        let mut offset = match window.get_floating_offsets() {
            Some(o) => o,
            None => Xyhw::zero(),
        };
        let start = match window.start_loc {
            Some(s) => s,
            None => Xyhw::zero(),
        };
        offset.set_x(clamp_offset(start.x as i64 + offset_x as i64));
        offset.set_y(clamp_offset(start.y as i64 + offset_y as i64));
        window.set_floating_offsets(Some(offset));
    }
}

/// Index of the first active-scratchpad entry whose process ids contain
/// `pid`.
pub fn find_active_scratchpad(
    active: &Vec<(String, Vec<u32>)>,
    pid: Option<u32>,
) -> (r: Option<usize>)
    ensures
        match r {
            Some(i) => helpers::find_idx(active@, scratch_match(pid)) == Some(i as int) && i
                < active@.len(),
            None => helpers::find_idx(active@, scratch_match(pid)) is None,
        },
{
    proof {
        helpers::lemma_find_idx_spec(active@, scratch_match(pid));
    }
    let mut i: usize = 0;
    while i < active.len()
        invariant
            0 <= i <= active@.len(),
            forall|j: int| 0 <= j < i ==> !scratch_match(pid)(#[trigger] active@[j]),
        decreases active@.len() - i,
    {
        if ids_contain(&active[i].1, pid) {
            proof {
                assert(scratch_match(pid)(active@[i as int]));
                match helpers::find_idx(active@, scratch_match(pid)) {
                    Some(k) => {
                        if k < i {
                            assert(scratch_match(pid)(active@[k]));
                        } else if k > i {
                            assert(!scratch_match(pid)(active@[i as int]));
                        }
                    },
                    None => {
                        assert(!scratch_match(pid)(active@[i as int]));
                    },
                }
            }
            return Some(i);
        }
        i = i + 1;
    }
    proof {
        match helpers::find_idx(active@, scratch_match(pid)) {
            Some(k) => {
                assert(scratch_match(pid)(active@[k]));
            },
            None => {},
        }
    }
    None
}

/// Whether `pid` names one of the ids.
fn ids_contain(ids: &Vec<u32>, pid: Option<u32>) -> (r: bool)
    ensures
        r == exists|j: int| 0 <= j < ids@.len() && pid == Some(ids@[j]),
{
    let p = match pid {
        Some(p) => p,
        None => {
            return false;
        },
    };
    let mut j: usize = 0;
    while j < ids.len()
        invariant
            0 <= j <= ids@.len(),
            pid == Some(p),
            forall|q: int| 0 <= q < j ==> pid != Some(#[trigger] ids@[q]),
        decreases ids@.len() - j,
    {
        if ids[j] == p {
            return true;
        }
        j = j + 1;
    }
    false
}

} // verus!
