//! Window created: insertion ordering into the shared window list.
//!
//! The insertion rules: under a strict-visual-order layout (`Monocle`,
//! `MainAndDeck`) a new Normal window is spliced into its tag's group at
//! the top (or second) position; dialog-like and scratchpad windows go to
//! the absolute top; everything else follows the configured insertion
//! behaviour relative to the focused window.

use vstd::prelude::*;

use crate::config::{InsertBehavior, ScratchPad};
use crate::display_action::DisplayAction;
use crate::geometry::Xyhw;
use crate::helpers;
use crate::manager::{is_scratchpad_s, Manager};
use crate::state::State;
use crate::window::{Window, WindowState, WindowType};
use crate::workspace::{Layout, Workspace};

verus! {

/// The window sits on tag `t` and takes part in tiling.
pub open spec fn same_tag_managed(t: Option<usize>) -> spec_fn(Window) -> bool {
    |x: Window| x.tag == t && x.is_managed_s()
}

/// The complement of `same_tag_managed`.
pub open spec fn not_same_tag_managed(t: Option<usize>) -> spec_fn(Window) -> bool {
    |x: Window| !(x.tag == t && x.is_managed_s())
}

/// A managed fullscreen window on tag `t`.
pub open spec fn fullscreen_peer(t: Option<usize>) -> spec_fn(Window) -> bool {
    |x: Window| x.tag == t && x.is_managed_s() && x.is_fullscreen_s()
}

/// Layouts that expect a strict visual order.
pub open spec fn uses_monocle_order(layout: Layout) -> bool {
    layout == Layout::Monocle || layout == Layout::MainAndDeck
}

/// The window list after splicing `w` into its tag's group: the group is
/// extracted in order and re-appended with `w` first (under `Monocle`, or
/// when the group was empty) or second.
pub open spec fn monocle_windows_s(windows: Seq<Window>, w: Window, layout: Layout) -> Seq<
    Window,
> {
    let group = windows.filter(same_tag_managed(w.tag));
    let rest = windows.filter(not_same_tag_managed(w.tag));
    if layout == Layout::Monocle || group.len() == 0 {
        rest + seq![w] + group
    } else {
        rest + group.take(1) + seq![w] + group.skip(1)
    }
}

/// Dialog, splash and utility windows, and scratchpad windows, always land
/// at the absolute top of the list.
pub open spec fn is_special_top(state: State, w: Window) -> bool {
    ||| w.kind == WindowType::Dialog
    ||| w.kind == WindowType::Splash
    ||| w.kind == WindowType::Utility
    ||| is_scratchpad_s(state.active_scratchpads@, w.pid)
}

/// Position of the currently focused window in the list, 0 when nothing is
/// focused or the focused handle is not present.
pub open spec fn current_index_s(state: State) -> int {
    match state.focus_manager.focused_window_s() {
        Some(h) => match helpers::find_handle_idx(state.windows@, h) {
            Some(i) => i,
            None => 0,
        },
        None => 0,
    }
}

/// The window list after inserting `w` by the configured behaviour: Top
/// prepends, Bottom appends, AfterCurrent/BeforeCurrent insert relative to
/// the focused window.
pub open spec fn behavior_windows_s(state: State, w: Window) -> Seq<Window> {
    let cur = current_index_s(state);
    let ws = state.windows@;
    match state.insert_behavior {
        InsertBehavior::Top => ws.insert(0, w),
        InsertBehavior::Bottom => ws.push(w),
        InsertBehavior::AfterCurrent => if cur < ws.len() {
            ws.insert(cur + 1, w)
        } else {
            ws.insert(cur, w)
        },
        InsertBehavior::BeforeCurrent => ws.insert(cur, w),
    }
}

/// The window list `insert_window` leaves behind.
pub open spec fn insert_windows_s(state: State, w: Window, layout: Layout) -> Seq<Window> {
    if w.kind == WindowType::Normal && uses_monocle_order(layout) {
        monocle_windows_s(state.windows@, w, layout)
    } else if is_special_top(state, w) {
        seq![w] + state.windows@
    } else {
        behavior_windows_s(state, w)
    }
}

/// The actions `insert_window` queues: a fullscreen toggle-off for the
/// single fullscreen peer of a new Normal window, and, when that window
/// takes the top monocle position, a fullscreen toggle-on for it.
pub open spec fn insert_actions_s(state: State, w: Window, layout: Layout) -> Seq<
    DisplayAction,
> {
    if w.kind != WindowType::Normal {
        seq![]
    } else {
        let fs = helpers::find_idx(state.windows@, fullscreen_peer(w.tag));
        let base: Seq<DisplayAction> = match fs {
            Some(i) => seq![
                DisplayAction::SetState(
                    state.windows@[i].handle,
                    false,
                    WindowState::Fullscreen,
                ),
            ],
            None => Seq::empty(),
        };
        let group_empty = state.windows@.filter(same_tag_managed(w.tag)).len() == 0;
        if uses_monocle_order(layout) && (layout == Layout::Monocle || group_empty)
            && fs is Some {
            base.push(
                DisplayAction::SetState(w.handle, !w.is_fullscreen_s(), WindowState::Fullscreen),
            )
        } else {
            base
        }
    }
}

impl Manager {
    /// Insert the new window into the shared window list and queue the
    /// fullscreen adjustments this causes.
    pub fn insert_window(&mut self, window: Window, layout: Layout)
        requires
            old(self).wf(),
            window.wf(),
            !helpers::handle_in(old(self).state.windows@, window.handle),
        ensures
            final(self).wf(),
            final(self).config == old(self).config,
            final(self).state.same_base(old(self).state),
            final(self).state.workspaces == old(self).state.workspaces,
            final(self).state.focus_manager == old(self).state.focus_manager,
            final(self).state.windows@ == insert_windows_s(old(self).state, window, layout),
            final(self).state.actions@ == old(self).state.actions@ + insert_actions_s(
                old(self).state,
                window,
                layout,
            ),
    {
        let ghost st0 = self.state;
        let ghost t = window.tag;
        let mut was_fullscreen = false;
        if window.kind == WindowType::Normal {
            match find_fullscreen_peer(&self.state.windows, window.tag) {
                Some(i) => {
                    let fsw_handle = self.state.windows[i].handle;
                    let set_to = !self.state.windows[i].is_fullscreen();
                    self.state.actions.push(
                        DisplayAction::SetState(fsw_handle, set_to, WindowState::Fullscreen),
                    );
                    was_fullscreen = true;
                },
                None => {},
            }
            if layout == Layout::Monocle || layout == Layout::MainAndDeck {
                let mut to_reorder = extract_same_tag_managed(&mut self.state.windows, window.tag);
                let ghost group = st0.windows@.filter(same_tag_managed(t));
                let ghost rest = st0.windows@.filter(not_same_tag_managed(t));
                let ghost w = window;
                if layout == Layout::Monocle || to_reorder.len() == 0 {
                    if was_fullscreen {
                        self.state.actions.push(
                            DisplayAction::SetState(
                                window.handle,
                                !window.is_fullscreen(),
                                WindowState::Fullscreen,
                            ),
                        );
                    }
                    to_reorder.insert(0, window);
                    proof {
                        assert(to_reorder@ =~= seq![w] + group);
                    }
                } else {
                    to_reorder.insert(1, window);
                    proof {
                        assert(to_reorder@ =~= group.take(1) + seq![w] + group.skip(1));
                    }
                }
                self.state.windows.append(&mut to_reorder);
                proof {
                    assert(self.state.windows@ =~= monocle_windows_s(st0.windows@, w, layout));
                    lemma_monocle_result(st0.windows@, w, t, self.state.windows@, layout);
                }
                return ;
            }
        }
        if window.kind == WindowType::Dialog || window.kind == WindowType::Splash || window.kind
            == WindowType::Utility || self.is_scratchpad(&window) {
            proof {
                helpers::lemma_insert_unique(st0.windows@, window, 0);
                assert(st0.windows@.insert(0, window) =~= seq![window] + st0.windows@);
            }
            self.state.windows.insert(0, window);
            return ;
        }
        let cur = current_index(&self.state);
        match self.state.insert_behavior {
            InsertBehavior::Top => {
                proof {
                    helpers::lemma_insert_unique(st0.windows@, window, 0);
                }
                self.state.windows.insert(0, window);
            },
            InsertBehavior::Bottom => {
                proof {
                    helpers::lemma_insert_unique(st0.windows@, window, st0.windows@.len() as int);
                    assert(st0.windows@.insert(st0.windows@.len() as int, window)
                        =~= st0.windows@.push(window));
                }
                self.state.windows.push(window);
            },
            InsertBehavior::AfterCurrent => {
                if cur < self.state.windows.len() {
                    proof {
                        helpers::lemma_insert_unique(st0.windows@, window, cur + 1);
                    }
                    self.state.windows.insert(cur + 1, window);
                } else {
                    proof {
                        helpers::lemma_insert_unique(st0.windows@, window, cur as int);
                    }
                    self.state.windows.insert(cur, window);
                }
            },
            InsertBehavior::BeforeCurrent => {
                proof {
                    helpers::lemma_insert_unique(st0.windows@, window, cur as int);
                }
                self.state.windows.insert(cur, window);
            },
        }
    }
}

/// The splice of `w` into its extracted tag group equals the spliced list,
/// keeps every window well-formed, and keeps the handles unique.
proof fn lemma_monocle_result(
    orig: Seq<Window>,
    w: Window,
    t: Option<usize>,
    result: Seq<Window>,
    layout: Layout,
)
    requires
        t == w.tag,
        w.wf(),
        forall|i: int| 0 <= i < orig.len() ==> (#[trigger] orig[i]).wf(),
        helpers::unique_handles(orig),
        !helpers::handle_in(orig, w.handle),
        result == monocle_windows_s(orig, w, layout),
    ensures
        forall|i: int| 0 <= i < result.len() ==> (#[trigger] result[i]).wf(),
        helpers::unique_handles(result),
{
    let p = same_tag_managed(t);
    let q = not_same_tag_managed(t);
    let group = orig.filter(p);
    let rest = orig.filter(q);
    assert(forall|x: Window| #[trigger] q(x) <==> !p(x));
    helpers::lemma_filter_split_handles(orig, p, q);
    let c = rest + group;
    assert(!helpers::handle_in(c, w.handle)) by {
        assert(helpers::handle_in(c, w.handle) <==> helpers::handle_in(orig, w.handle));
    }
    assert forall|i: int| 0 <= i < c.len() implies (#[trigger] c[i]).wf() by {
        if i < rest.len() {
            assert(rest.contains(rest[i]));
            orig.lemma_filter_contains_rev(q, rest[i]);
            let k = choose|k: int| 0 <= k < orig.len() && orig[k] == c[i];
            assert(orig[k].wf());
        } else {
            assert(group.contains(group[i - rest.len()]));
            orig.lemma_filter_contains_rev(p, group[i - rest.len()]);
            let k = choose|k: int| 0 <= k < orig.len() && orig[k] == c[i];
            assert(orig[k].wf());
        }
    }
    if layout == Layout::Monocle || group.len() == 0 {
        assert(result =~= c.insert(rest.len() as int, w));
        helpers::lemma_insert_unique(c, w, rest.len() as int);
    } else {
        assert(result =~= c.insert(rest.len() as int + 1, w));
        helpers::lemma_insert_unique(c, w, rest.len() as int + 1);
    }
    assert forall|i: int| 0 <= i < result.len() implies (#[trigger] result[i]).wf() by {
        let k = if layout == Layout::Monocle || group.len() == 0 {
            rest.len() as int
        } else {
            rest.len() as int + 1
        };
        if i < k {
            assert(result[i] == c[i]);
        } else if i > k {
            assert(result[i] == c[i - 1]);
        }
    }
}

/// The workspace rectangle contains the point.
pub open spec fn ws_contains_point(x: int, y: int) -> spec_fn(Workspace) -> bool {
    |w: Workspace| w.xyhw.contains_point_s(x, y)
}

/// The window belongs to process `p`.
pub open spec fn pid_is(p: u32) -> spec_fn(Window) -> bool {
    |w: Window| w.pid == Some(p)
}

/// The scratchpad template carries this name.
pub open spec fn scratch_named(name: Seq<char>) -> spec_fn(ScratchPad) -> bool {
    |s: ScratchPad| s.name@ == name
}

/// The workspace a new window is placed on: the first workspace containing
/// the pointer, but only under sloppy focus; else the focused workspace.
pub open spec fn chosen_ws_idx_s(state: State, x: int, y: int) -> Option<int> {
    if state.focus_manager.behaviour.is_sloppy_s() && helpers::find_idx(
        state.workspaces@,
        ws_contains_point(x, y),
    ) is Some {
        helpers::find_idx(state.workspaces@, ws_contains_point(x, y))
    } else {
        state.focus_manager.focused_workspace_idx_s(state.workspaces@.len() as int)
    }
}

/// The managed window owned by the resolved terminal-launcher process, if
/// the ancestry walk produced one.
pub open spec fn terminal_window_idx_s(windows: Seq<Window>, tpid: Option<u32>) -> Option<int> {
    match tpid {
        None => None,
        Some(p) => helpers::find_idx(windows, pid_is(p)),
    }
}

/// Tag resolution order: an explicit tag already set, then terminal
/// ancestry inheritance, then the chosen workspace's tag.
pub open spec fn resolved_tag_s(
    state: State,
    w: Window,
    ws_tag: Option<usize>,
    tpid: Option<u32>,
) -> Option<usize> {
    if w.tag is Some {
        w.tag
    } else {
        match terminal_window_idx_s(state.windows@, tpid) {
            Some(i) => state.windows@[i].tag,
            None => ws_tag,
        }
    }
}

/// The floating rectangle `set_relative_floating` picks: the requested
/// rectangle centered on `outer`; if that leaves the workspace, centered
/// on the workspace; if that still does not fit (or nothing was
/// requested), the half-sized centered rectangle.
pub open spec fn chosen_float_rect_s(w: Window, ws_rect: Xyhw, outer: Xyhw) -> Xyhw {
    match w.requested {
        None => ws_rect.center_halfed_s(),
        Some(req) => {
            let c1 = req.center_relative_s(outer, w.border as int);
            if ws_rect.contains_rect_s(c1) {
                c1
            } else {
                let c2 = req.center_relative_s(ws_rect, w.border as int);
                if ws_rect.contains_rect_s(c2) {
                    c2
                } else {
                    ws_rect.center_halfed_s()
                }
            }
        },
    }
}

/// The window floated relative to `outer` within the workspace: marked
/// floating, its tiled frame anchored to the workspace rectangle, and its
/// exact rectangle the chosen one.
pub open spec fn relative_floating_s(w: Window, ws: Workspace, outer: Xyhw) -> Window {
    let w1 = Window { normal: ws.xyhw, ..w.set_floating_s(true) };
    w1.set_floating_exact_s(chosen_float_rect_s(w, ws.xyhw, outer))
}

/// A window floated relative to any outer rectangle stays fully inside its
/// workspace, whatever the parent's position.
pub proof fn lemma_relative_floating_contained(w: Window, ws: Workspace, outer: Xyhw)
    requires
        w.wf(),
        ws.xyhw.wf(),
    ensures
        relative_floating_s(w, ws, outer).exact_xyhw_s() == chosen_float_rect_s(
            w,
            ws.xyhw,
            outer,
        ),
        ws.xyhw.contains_rect_s(relative_floating_s(w, ws, outer).exact_xyhw_s()),
        relative_floating_s(w, ws, outer).wf(),
{
    let chosen = chosen_float_rect_s(w, ws.xyhw, outer);
    assert(ws.xyhw.contains_rect_s(chosen));
    let r = relative_floating_s(w, ws, outer);
    assert(r.normal == ws.xyhw);
    assert(r.floating_offsets == Some(
        Xyhw {
            x: crate::window::clamp_offset_s(chosen.x - ws.xyhw.x) as i32,
            y: crate::window::clamp_offset_s(chosen.y - ws.xyhw.y) as i32,
            w: crate::window::clamp_offset_s(chosen.w - ws.xyhw.w) as i32,
            h: crate::window::clamp_offset_s(chosen.h - ws.xyhw.h) as i32,
        },
    ));
}

impl Manager {
    /// Float the window positioned relative to `outer` (a transient
    /// parent's rectangle, or the workspace itself), clipped to the
    /// workspace.
    pub fn set_relative_floating(&self, window: &mut Window, ws: &Workspace, outer: Xyhw)
        requires
            old(window).wf(),
            ws.wf(),
            outer.within(
                crate::geometry::COORD_LIMIT as int + crate::geometry::OFFSET_LIMIT as int,
            ),
        ensures
            *final(window) == relative_floating_s(*old(window), *ws, outer),
            ws.xyhw.contains_rect_s(final(window).exact_xyhw_s()),
            final(window).wf(),
    {
        proof {
            lemma_relative_floating_contained(*window, *ws, outer);
        }
        let ghost w0 = *window;
        window.set_floating(true);
        window.normal = ws.xyhw;
        let xyhw = match window.requested {
            None => ws.center_halfed(),
            Some(req) => {
                let mut rect = req;
                rect.center_relative(outer, window.border);
                if ws.xyhw.contains_xyhw(&rect) {
                    rect
                } else {
                    let mut rect2 = req;
                    rect2.center_relative(ws.xyhw, window.border);
                    if ws.xyhw.contains_xyhw(&rect2) {
                        rect2
                    } else {
                        ws.center_halfed()
                    }
                }
            },
        };
        window.set_floating_exact(xyhw);
    }
}

/// Kind-specific placement defaults: Normal windows adopt the workspace
/// margin multiplier (and float relative to the workspace if already
/// floating); resizable Dialogs are floated centered at half size, other
/// Dialogs and Splash windows float relative to the workspace; remaining
/// kinds are left to be tiled.
pub open spec fn by_kind_s(w: Window, ws: Workspace) -> Window {
    if w.kind == WindowType::Normal {
        let w1 = Window { margin_multiplier: ws.margin_multiplier, ..w };
        if w1.floating_s() {
            relative_floating_s(w1, ws, ws.xyhw)
        } else {
            w1
        }
    } else if w.kind == WindowType::Dialog {
        if w.can_resize {
            (Window { normal: ws.xyhw, ..w.set_floating_s(true) }).set_floating_exact_s(
                ws.xyhw.center_halfed_s(),
            )
        } else {
            relative_floating_s(w, ws, ws.xyhw)
        }
    } else if w.kind == WindowType::Splash {
        relative_floating_s(w, ws, ws.xyhw)
    } else {
        w
    }
}

/// Transient attachment: a non-Utility window whose transient chain
/// resolves is floated relative to its parent's exact rectangle.
pub open spec fn after_transient_s(state: State, w: Window, ws: Workspace) -> Window {
    let par = crate::manager::resolve_transient_s(
        state.windows@,
        w.transient,
        state.windows@.len() + 1,
    );
    if par is Some && w.kind != WindowType::Utility {
        relative_floating_s(w, ws, par.unwrap().exact_xyhw_s())
    } else {
        by_kind_s(w, ws)
    }
}

/// Scratchpad binding: a window spawned by an active scratchpad process is
/// forced floating and, when its template exists, anchored to the
/// workspace with the template's geometry; this short-circuits the
/// remaining placement rules.
pub open spec fn after_scratch_s(state: State, w: Window, ws: Workspace) -> Window {
    match helpers::find_idx(state.active_scratchpads@, crate::manager::scratch_match(w.pid)) {
        Some(i) => {
            let name = state.active_scratchpads@[i].0;
            let w2 = w.set_floating_s(true);
            match helpers::find_idx(state.scratchpads@, scratch_named(name@)) {
                Some(si) => (Window { normal: ws.xyhw, ..w2 }).set_floating_exact_s(
                    state.scratchpads@[si].xyhw_s(ws.xyhw),
                ),
                None => after_transient_s(state, w2, ws),
            }
        },
        None => after_transient_s(state, w, ws),
    }
}

/// The window `setup_window` hands on: placed on the chosen workspace with
/// its tag resolved, or, with no workspace at all, dropped onto tag 1 (or
/// the hidden scratchpad tag).
pub open spec fn setup_window_s(
    state: State,
    w0: Window,
    x: int,
    y: int,
    tpid: Option<u32>,
) -> Window {
    match chosen_ws_idx_s(state, x, y) {
        None => {
            let w1 = Window { tag: Some(1usize), ..w0 };
            if is_scratchpad_s(state.active_scratchpads@, w0.pid) {
                match helpers::find_idx(state.tags.list@, crate::state::hidden_labeled("NSP"@)) {
                    Some(i) => (Window {
                        tag: Some(state.tags.list@[i].id),
                        ..w1
                    }).set_floating_s(true),
                    None => w1,
                }
            } else {
                w1
            }
        },
        Some(wi) => {
            let ws = state.workspaces@[wi];
            let w1 = Window { tag: resolved_tag_s(state, w0, ws.tag, tpid), ..w0 };
            after_scratch_s(state, w1, ws)
        },
    }
}

/// The layout `setup_window` reports: the chosen workspace's, else the
/// caller's default.
pub open spec fn setup_layout_s(state: State, x: int, y: int, layout0: Layout) -> Layout {
    match chosen_ws_idx_s(state, x, y) {
        None => layout0,
        Some(wi) => state.workspaces@[wi].layout,
    }
}

/// Whether the new window is the first managed window on the chosen
/// workspace's tag.
pub open spec fn setup_is_first_s(state: State, x: int, y: int, is_first0: bool) -> bool {
    match chosen_ws_idx_s(state, x, y) {
        None => is_first0,
        Some(wi) => state.windows@.filter(
            same_tag_managed(state.workspaces@[wi].tag),
        ).len() == 0,
    }
}

/// Whether the window landed on the chosen workspace's own tag.
pub open spec fn setup_on_same_tag_s(
    state: State,
    w0: Window,
    x: int,
    y: int,
    tpid: Option<u32>,
    on_same0: bool,
) -> bool {
    match chosen_ws_idx_s(state, x, y) {
        None => on_same0,
        Some(wi) => {
            let ws = state.workspaces@[wi];
            ws.tag == resolved_tag_s(state, w0, ws.tag, tpid)
        },
    }
}

impl Manager {
    /// Place a new window: choose its workspace, resolve its tag (honoring
    /// terminal ancestry, reported by the adapter as `terminal_pid`), bind
    /// scratchpads, attach transients, and apply kind-specific defaults.
    /// Reports the chosen workspace's layout and whether the window is the
    /// first on its tag and landed on the active tag.
    #[verifier::rlimit(100)]
    pub fn setup_window(
        &self,
        window: &mut Window,
        xy: (i32, i32),
        terminal_pid: Option<u32>,
        layout: &mut Layout,
        is_first: &mut bool,
        on_same_tag: &mut bool,
    )
        requires
            self.wf(),
            old(window).wf(),
        ensures
            *final(window) == setup_window_s(
                self.state,
                *old(window),
                xy.0 as int,
                xy.1 as int,
                terminal_pid,
            ),
            *final(layout) == setup_layout_s(self.state, xy.0 as int, xy.1 as int, *old(layout)),
            *final(is_first) == setup_is_first_s(
                self.state,
                xy.0 as int,
                xy.1 as int,
                *old(is_first),
            ),
            *final(on_same_tag) == setup_on_same_tag_s(
                self.state,
                *old(window),
                xy.0 as int,
                xy.1 as int,
                terminal_pid,
                *old(on_same_tag),
            ),
            final(window).wf(),
            final(window).handle == old(window).handle,
    {
        let ghost w0 = *window;
        let wi = match self.pick_workspace(xy.0, xy.1) {
            Some(wi) => wi,
            None => {
                window.tag = Some(1);
                if self.is_scratchpad(window) {
                    let nsp = "NSP".to_owned();
                    let hidden = self.state.tags.get_hidden_by_label(&nsp);
                    if let Some(scratchpad_tag) = hidden {
                        window.tag = Some(scratchpad_tag.id);
                        window.set_floating(true);
                    }
                }
                return ;
            },
        };
        let ws = &self.state.workspaces[wi];
        *is_first = !any_same_tag_managed(&self.state.windows, ws.tag);
        if window.tag.is_none() {
            window.tag = match self.find_terminal(terminal_pid) {
                Some(terminal) => terminal.tag,
                None => ws.tag,
            };
        }
        *on_same_tag = opt_tag_eq(ws.tag, window.tag);
        *layout = ws.layout;

        let ghost w1 = *window;
        match crate::manager::find_active_scratchpad(
            &self.state.active_scratchpads,
            window.pid,
        ) {
            Some(si) => {
                window.set_floating(true);
                let scratchpad_name = &self.state.active_scratchpads[si].0;
                match find_scratchpad_by_name(&self.state.scratchpads, scratchpad_name) {
                    Some(ti) => {
                        let new_float_exact = self.state.scratchpads[ti].xyhw(&ws.xyhw);
                        window.normal = ws.xyhw;
                        window.set_floating_exact(new_float_exact);
                        return ;
                    },
                    None => {},
                }
            },
            None => {},
        }

        let ghost w2 = *window;
        let parent_exact = match self.find_transient_parent(&self.state.windows, window.transient)
            {
            Some(parent) => {
                proof {
                    crate::manager::lemma_resolve_transient_elem(
                        self.state.windows@,
                        w2.transient,
                        self.state.windows@.len() + 1,
                    );
                }
                Some(parent.exact_xyhw())
            },
            None => None,
        };
        if let Some(outer) = parent_exact {
            if window.kind != WindowType::Utility {
                self.set_relative_floating(window, ws, outer);
                return ;
            }
        }

        match window.kind {
            WindowType::Normal => {
                window.apply_margin_multiplier(ws.margin_multiplier);
                if window.floating() {
                    self.set_relative_floating(window, ws, ws.xyhw);
                }
            },
            WindowType::Dialog => {
                if window.can_resize {
                    window.set_floating(true);
                    let new_float_exact = ws.center_halfed();
                    window.normal = ws.xyhw;
                    window.set_floating_exact(new_float_exact);
                } else {
                    self.set_relative_floating(window, ws, ws.xyhw);
                }
            },
            WindowType::Splash => self.set_relative_floating(window, ws, ws.xyhw),
            _ => {},
        }
    }

    /// The workspace a new window lands on: under sloppy focus the first
    /// workspace containing the pointer, else the focused workspace.
    fn pick_workspace(&self, x: i32, y: i32) -> (r: Option<usize>)
        ensures
            match chosen_ws_idx_s(self.state, x as int, y as int) {
                Some(i) => r is Some && r.unwrap() as int == i && i < self.state.workspaces@.len(),
                None => r is None,
            },
    {
        proof {
            helpers::lemma_find_idx_spec(
                self.state.workspaces@,
                ws_contains_point(x as int, y as int),
            );
        }
        if self.state.focus_manager.behaviour.is_sloppy() {
            let mut i: usize = 0;
            while i < self.state.workspaces.len()
                invariant
                    0 <= i <= self.state.workspaces@.len(),
                    forall|j: int|
                        0 <= j < i ==> !ws_contains_point(x as int, y as int)(
                            #[trigger] self.state.workspaces@[j],
                        ),
                decreases self.state.workspaces@.len() - i,
            {
                if self.state.workspaces[i].contains_point(x, y) {
                    proof {
                        let p = ws_contains_point(x as int, y as int);
                        assert(p(self.state.workspaces@[i as int]));
                        match helpers::find_idx(self.state.workspaces@, p) {
                            Some(k) => {
                                if k < i {
                                    assert(p(self.state.workspaces@[k]));
                                } else if k > i {
                                    assert(!p(self.state.workspaces@[i as int]));
                                }
                            },
                            None => {
                                assert(!p(self.state.workspaces@[i as int]));
                            },
                        }
                    }
                    return Some(i);
                }
                i = i + 1;
            }
        }
        match self.state.focus_manager.workspace(&self.state.workspaces) {
            Some(_) => Some(self.state.focus_manager.workspace_history[0]),
            None => None,
        }
    }

    /// The managed window owned by the terminal-launcher process the
    /// adapter resolved, if any.
    fn find_terminal<'a>(&'a self, terminal_pid: Option<u32>) -> (r: Option<&'a Window>)
        ensures
            match terminal_window_idx_s(self.state.windows@, terminal_pid) {
                Some(i) => r is Some && *r.unwrap() == self.state.windows@[i],
                None => r is None,
            },
    {
        let p = match terminal_pid {
            Some(p) => p,
            None => {
                return None;
            },
        };
        proof {
            helpers::lemma_find_idx_spec(self.state.windows@, pid_is(p));
        }
        let mut i: usize = 0;
        while i < self.state.windows.len()
            invariant
                0 <= i <= self.state.windows@.len(),
                forall|j: int| 0 <= j < i ==> !pid_is(p)(#[trigger] self.state.windows@[j]),
            decreases self.state.windows@.len() - i,
        {
            let matches_pid = match self.state.windows[i].pid {
                Some(q) => q == p,
                None => false,
            };
            if matches_pid {
                proof {
                    assert(pid_is(p)(self.state.windows@[i as int]));
                    match helpers::find_idx(self.state.windows@, pid_is(p)) {
                        Some(k) => {
                            if k < i {
                                assert(pid_is(p)(self.state.windows@[k]));
                            } else if k > i {
                                assert(!pid_is(p)(self.state.windows@[i as int]));
                            }
                        },
                        None => {
                            assert(!pid_is(p)(self.state.windows@[i as int]));
                        },
                    }
                }
                return Some(&self.state.windows[i]);
            }
            i = i + 1;
        }
        proof {
            match helpers::find_idx(self.state.windows@, pid_is(p)) {
                Some(k) => {
                    assert(pid_is(p)(self.state.windows@[k]));
                },
                None => {},
            }
        }
        None
    }
}

/// Whether any window in the list is managed and sits on tag `t`.
fn any_same_tag_managed(windows: &Vec<Window>, t: Option<usize>) -> (r: bool)
    ensures
        r == (windows@.filter(same_tag_managed(t)).len() != 0),
{
    let mut i: usize = 0;
    while i < windows.len()
        invariant
            0 <= i <= windows@.len(),
            forall|j: int| 0 <= j < i ==> !same_tag_managed(t)(#[trigger] windows@[j]),
        decreases windows@.len() - i,
    {
        let w = &windows[i];
        let tag_match = match (w.tag, t) {
            (Some(a), Some(b)) => a == b,
            (None, None) => true,
            _ => false,
        };
        if tag_match && w.is_managed() {
            proof {
                assert(same_tag_managed(t)(windows@[i as int]));
                windows@.lemma_filter_contains(same_tag_managed(t), i as int);
            }
            return true;
        }
        i = i + 1;
    }
    proof {
        helpers::lemma_filter_none(windows@, same_tag_managed(t));
    }
    false
}

/// Tag equality.
fn opt_tag_eq(a: Option<usize>, b: Option<usize>) -> (r: bool)
    ensures
        r == (a == b),
{
    match (a, b) {
        (Some(x), Some(y)) => x == y,
        (None, None) => true,
        _ => false,
    }
}

/// The first scratchpad template carrying this name.
fn find_scratchpad_by_name<'a>(
    scratchpads: &'a Vec<ScratchPad>,
    name: &String,
) -> (r: Option<usize>)
    ensures
        match r {
            Some(i) => helpers::find_idx(scratchpads@, scratch_named(name@)) == Some(i as int)
                && i < scratchpads@.len(),
            None => helpers::find_idx(scratchpads@, scratch_named(name@)) is None,
        },
{
    proof {
        helpers::lemma_find_idx_spec(scratchpads@, scratch_named(name@));
    }
    let mut i: usize = 0;
    while i < scratchpads.len()
        invariant
            0 <= i <= scratchpads@.len(),
            forall|j: int| 0 <= j < i ==> !scratch_named(name@)(#[trigger] scratchpads@[j]),
        decreases scratchpads@.len() - i,
    {
        if scratchpads[i].name.eq(name) {
            proof {
                assert(scratch_named(name@)(scratchpads@[i as int]));
                match helpers::find_idx(scratchpads@, scratch_named(name@)) {
                    Some(k) => {
                        if k < i {
                            assert(scratch_named(name@)(scratchpads@[k]));
                        } else if k > i {
                            assert(!scratch_named(name@)(scratchpads@[i as int]));
                        }
                    },
                    None => {
                        assert(!scratch_named(name@)(scratchpads@[i as int]));
                    },
                }
            }
            return Some(i);
        }
        i = i + 1;
    }
    proof {
        match helpers::find_idx(scratchpads@, scratch_named(name@)) {
            Some(k) => {
                assert(scratch_named(name@)(scratchpads@[k]));
            },
            None => {},
        }
    }
    None
}

/// Remove and return, in order, the managed windows on tag `t`.
fn extract_same_tag_managed(windows: &mut Vec<Window>, t: Option<usize>) -> (r: Vec<Window>)
    ensures
        final(windows)@ == old(windows)@.filter(not_same_tag_managed(t)),
        r@ == old(windows)@.filter(same_tag_managed(t)),
{
    let ghost orig = windows@;
    let mut kept: Vec<Window> = Vec::new();
    let mut extracted: Vec<Window> = Vec::new();
    let ghost mut done: int = 0;
    proof {
        assert(orig.take(0).filter(same_tag_managed(t)) =~= Seq::<Window>::empty());
        assert(orig.take(0).filter(not_same_tag_managed(t)) =~= Seq::<Window>::empty());
        assert(windows@ =~= orig.skip(0));
    }
    while windows.len() > 0
        invariant
            0 <= done <= orig.len(),
            windows@ == orig.skip(done),
            kept@ == orig.take(done).filter(not_same_tag_managed(t)),
            extracted@ == orig.take(done).filter(same_tag_managed(t)),
        decreases windows@.len(),
    {
        let w = windows.remove(0);
        proof {
            assert(orig.skip(done)[0] == orig[done]);
            assert(w == orig[done]);
            assert(orig.take(done + 1) =~= orig.take(done).push(orig[done]));
            helpers::lemma_filter_push(orig.take(done), orig[done], same_tag_managed(t));
            helpers::lemma_filter_push(orig.take(done), orig[done], not_same_tag_managed(t));
            assert(orig.skip(done).skip(1) =~= orig.skip(done + 1));
        }
        let keep_it = !(match (w.tag, t) {
            (Some(a), Some(b)) => a == b,
            (None, None) => true,
            _ => false,
        } && w.is_managed());
        if keep_it {
            kept.push(w);
        } else {
            extracted.push(w);
        }
        proof {
            done = done + 1;
        }
    }
    proof {
        assert(orig.take(done) =~= orig);
    }
    *windows = kept;
    extracted
}

/// Index of the first managed fullscreen window on tag `t`.
fn find_fullscreen_peer(windows: &Vec<Window>, t: Option<usize>) -> (r: Option<usize>)
    ensures
        match r {
            Some(i) => helpers::find_idx(windows@, fullscreen_peer(t)) == Some(i as int) && i
                < windows@.len() && fullscreen_peer(t)(windows@[i as int]),
            None => helpers::find_idx(windows@, fullscreen_peer(t)) is None,
        },
{
    proof {
        helpers::lemma_find_idx_spec(windows@, fullscreen_peer(t));
    }
    let mut i: usize = 0;
    while i < windows.len()
        invariant
            0 <= i <= windows@.len(),
            forall|j: int| 0 <= j < i ==> !fullscreen_peer(t)(#[trigger] windows@[j]),
        decreases windows@.len() - i,
    {
        let w = &windows[i];
        let tag_match = match (w.tag, t) {
            (Some(a), Some(b)) => a == b,
            (None, None) => true,
            _ => false,
        };
        if tag_match && w.is_managed() && w.is_fullscreen() {
            proof {
                assert(fullscreen_peer(t)(windows@[i as int]));
                match helpers::find_idx(windows@, fullscreen_peer(t)) {
                    Some(k) => {
                        if k < i {
                            assert(fullscreen_peer(t)(windows@[k]));
                        } else if k > i {
                            assert(!fullscreen_peer(t)(windows@[i as int]));
                        }
                    },
                    None => {
                        assert(!fullscreen_peer(t)(windows@[i as int]));
                    },
                }
            }
            return Some(i);
        }
        i = i + 1;
    }
    proof {
        match helpers::find_idx(windows@, fullscreen_peer(t)) {
            Some(k) => {
                assert(fullscreen_peer(t)(windows@[k]));
            },
            None => {},
        }
    }
    None
}

/// The window a creation event ends up inserting: the incoming window
/// after the predefined-window hook, placement, and the visual settings.
pub open spec fn created_final_window_s(
    m: Manager,
    w0: Window,
    x: int,
    y: int,
    tpid: Option<u32>,
) -> Window {
    let w1 = crate::config::apply_best_hook_s(m.config, w0);
    let w2 = setup_window_s(m.state, w1, x, y, tpid);
    Window { border: m.config.border_width, margin: m.config.margin, ..w2 }
}

/// The layout a creation event resolves (the chosen workspace's).
pub open spec fn created_layout_s(m: Manager, x: int, y: int) -> Layout {
    setup_layout_s(m.state, x, y, Layout::MainAndVertStack)
}

/// In the inserted list, the first window carrying the fresh handle is the
/// inserted window itself.
proof fn lemma_inserted_window_found(state: State, w: Window, lay: Layout)
    requires
        state.wf(),
        w.wf(),
        !helpers::handle_in(state.windows@, w.handle),
    ensures
        ({
            let nw = insert_windows_s(state, w, lay);
            match helpers::find_handle_idx(nw, w.handle) {
                Some(i) => nw[i] == w,
                None => false,
            }
        }),
{
    let nw = insert_windows_s(state, w, lay);
    let t = w.tag;
    helpers::lemma_find_idx_spec(nw, helpers::win_handle_is(w.handle));
    match state.focus_manager.focused_window_s() {
        Some(h) => {
            helpers::lemma_find_idx_spec(state.windows@, helpers::win_handle_is(h));
        },
        None => {},
    }
    // Establish: w occurs in nw, and every other element comes from the old
    // list, whose handles all differ from w's.
    assert forall|j: int| 0 <= j < state.windows@.len() implies (#[trigger] state.windows@[j]).handle
        != w.handle by {
        if state.windows@[j].handle == w.handle {
            assert(helpers::handle_in(state.windows@, w.handle));
        }
    }
    if w.kind == WindowType::Normal && uses_monocle_order(lay) {
        let p = same_tag_managed(t);
        let q = not_same_tag_managed(t);
        let group = state.windows@.filter(p);
        let rest = state.windows@.filter(q);
        assert(forall|x: Window| #[trigger] q(x) <==> !p(x));
        helpers::lemma_filter_split_handles(state.windows@, p, q);
        let c = rest + group;
        assert(!helpers::handle_in(c, w.handle)) by {
            assert(helpers::handle_in(c, w.handle) <==> helpers::handle_in(
                state.windows@,
                w.handle,
            ));
            if helpers::handle_in(state.windows@, w.handle) {
                let j = choose|j: int|
                    0 <= j < state.windows@.len() && state.windows@[j].handle == w.handle;
                assert(state.windows@[j].handle != w.handle);
            }
        }
        assert forall|j: int| 0 <= j < c.len() implies (#[trigger] c[j]).handle != w.handle by {
            if c[j].handle == w.handle {
                assert(helpers::handle_in(c, w.handle));
            }
        }
        let k = if lay == Layout::Monocle || group.len() == 0 {
            rest.len() as int
        } else {
            rest.len() as int + 1
        };
        assert(nw =~= c.insert(k, w));
        assert(nw[k] == w);
        match helpers::find_handle_idx(nw, w.handle) {
            Some(i) => {
                if i != k {
                    let i0: int = if i < k {
                        i
                    } else {
                        i - 1
                    };
                    assert(nw[i] == c[i0]);
                }
            },
            None => {
                assert(nw[k].handle == w.handle);
            },
        }
    } else {
        let k: int = if is_special_top(state, w) {
            0
        } else {
            let cur = current_index_s(state);
            match state.insert_behavior {
                InsertBehavior::Top => 0,
                InsertBehavior::Bottom => state.windows@.len() as int,
                InsertBehavior::AfterCurrent => if cur < state.windows@.len() {
                    cur + 1
                } else {
                    cur
                },
                InsertBehavior::BeforeCurrent => cur,
            }
        };
        assert(nw =~= state.windows@.insert(k, w));
        assert(nw[k] == w);
        match helpers::find_handle_idx(nw, w.handle) {
            Some(i) => {
                if i != k {
                    let i0: int = if i < k {
                        i
                    } else {
                        i - 1
                    };
                    assert(nw[i] == state.windows@[i0]);
                }
            },
            None => {
                assert(nw[k].handle == w.handle);
            },
        }
    }
}

impl Manager {
    /// A window was created: place it, insert it into the window list,
    /// announce it to the display server, restack, and transfer focus to
    /// it when the configuration or its being first on the active tag
    /// warrants it.  Creating an already-tracked handle is a no-op that
    /// reports no render needed; otherwise a render is always warranted.
    /// The configured new-window shell hook is the adapter's to fire once
    /// this returns true.
    #[verifier::rlimit(100)]
    pub fn window_created_handler(
        &mut self,
        window: Window,
        x: i32,
        y: i32,
        terminal_pid: Option<u32>,
    ) -> (r: bool)
        requires
            old(self).wf(),
            window.wf(),
        ensures
            final(self).wf(),
            final(self).config == old(self).config,
            final(self).state.same_base(old(self).state),
            final(self).state.workspaces == old(self).state.workspaces,
            final(self).state.same_focus_flags(old(self).state),
            helpers::has_handle(old(self).state.windows@, window.handle) ==> r == false
                && *final(self) == *old(self),
            !helpers::has_handle(old(self).state.windows@, window.handle) ==> r == true && ({
                let m0 = *old(self);
                let w1 = crate::config::apply_best_hook_s(m0.config, window);
                let w3 = created_final_window_s(m0, window, x as int, y as int, terminal_pid);
                let lay = created_layout_s(m0, x as int, y as int);
                let first = setup_is_first_s(m0.state, x as int, y as int, false);
                let same = setup_on_same_tag_s(
                    m0.state,
                    w1,
                    x as int,
                    y as int,
                    terminal_pid,
                    true,
                );
                let follow = m0.state.focus_manager.focus_new_windows
                    && m0.state.focus_manager.behaviour.is_sloppy_s()
                    && m0.state.focus_manager.sloppy_mouse_follows_focus && same;
                let new_windows = insert_windows_s(m0.state, w3, lay);
                let acts2 = (m0.state.actions@ + insert_actions_s(m0.state, w3, lay)).push(
                    DisplayAction::AddedWindow(window.handle, w3.floating_s(), follow),
                );
                let acts3 = if w3.tag is Some {
                    acts2.push(DisplayAction::SetWindowTag(window.handle, w3.tag))
                } else {
                    acts2
                };
                let focus_cond = (m0.state.focus_manager.focus_new_windows || first) && same;
                let already = m0.state.focus_manager.focused_window_s() == Some(window.handle);
                &&& final(self).state.windows@ == new_windows
                &&& final(self).state.actions@.take(acts3.len() as int) == acts3
                &&& final(self).state.actions@.len() > acts3.len()
                &&& crate::state::is_restack_of(
                    final(self).state.actions@[acts3.len() as int],
                    new_windows,
                )
                &&& (!(focus_cond && !already) ==> {
                    &&& final(self).state.actions@.len() == acts3.len() + 1
                    &&& final(self).state.focus_manager.window_history == m0
                        .state.focus_manager.window_history
                    &&& final(self).state.focus_manager.tags_last_window == m0
                        .state.focus_manager.tags_last_window
                })
                &&& (focus_cond && !already ==> {
                    &&& final(self).state.actions@.len() == acts3.len() + 2
                    &&& final(self).state.actions@.last() == DisplayAction::FocusWindow(
                        window.handle,
                    )
                    &&& final(self).state.focus_manager.window_history@ == seq![
                        Some(window.handle),
                    ] + m0.state.focus_manager.window_history@
                    &&& final(self).state.focus_manager.tags_last_window@ == match w3.tag {
                        Some(t) => crate::state::upsert_tag_s(
                            m0.state.focus_manager.tags_last_window@,
                            t,
                            window.handle,
                        ),
                        None => m0.state.focus_manager.tags_last_window@,
                    }
                })
            }),
    {
        let ghost m0 = *self;
        // Don't add the window if the manager already knows about it.
        match helpers::position_of_handle(&self.state.windows, window.handle) {
            Some(_) => {
                return false;
            },
            None => {},
        }
        proof {
            if helpers::handle_in(m0.state.windows@, window.handle) {
                let j = choose|j: int|
                    0 <= j < m0.state.windows@.len() && m0.state.windows@[j].handle
                        == window.handle;
            }
            assert(!helpers::handle_in(m0.state.windows@, window.handle));
        }
        let mut window = window;
        let ghost w0 = window;
        // Set up any predefined hooks.
        self.config.setup_predefined_window(&mut window);
        proof {
            assert(window == crate::config::apply_best_hook_s(m0.config, w0));
            assert(window.wf() && window.handle == w0.handle);
        }
        let mut is_first = false;
        let mut on_same_tag = true;
        let mut layout: Layout = Layout::MainAndVertStack;
        self.setup_window(
            &mut window,
            (x, y),
            terminal_pid,
            &mut layout,
            &mut is_first,
            &mut on_same_tag,
        );
        self.config.load_window(&mut window);
        let ghost w3 = window;
        proof {
            assert(w3 == created_final_window_s(m0, w0, x as int, y as int, terminal_pid));
            assert(w3.wf() && w3.handle == w0.handle);
        }
        let handle = window.handle;
        let floating = window.floating();
        let tag = window.tag;
        self.insert_window(window, layout);

        let follow_mouse = self.state.focus_manager.focus_new_windows
            && self.state.focus_manager.behaviour.is_sloppy()
            && self.state.focus_manager.sloppy_mouse_follows_focus && on_same_tag;
        // Let the display server know we are managing this window.
        self.state.actions.push(DisplayAction::AddedWindow(handle, floating, follow_mouse));
        // And which desktop it belongs to.
        if tag.is_some() {
            self.state.actions.push(DisplayAction::SetWindowTag(handle, tag));
        }
        let ghost acts3_v = self.state.actions@;
        // Reevaluate the stacking order, so the new window is put in the
        // correct layer.
        self.state.sort_windows();
        if (self.state.focus_manager.focus_new_windows || is_first) && on_same_tag {
            proof {
                lemma_inserted_window_found(m0.state, w3, created_layout_s(
                    m0,
                    x as int,
                    y as int,
                ));
            }
            self.state.focus_window(&handle);
        }
        proof {
            assert(self.state.actions@.take(acts3_v.len() as int) =~= acts3_v);
        }
        true
    }
}

/// The window list left by creating each window of `added` in order under
/// the `Bottom` insertion behaviour: each step appends.
pub open spec fn appended_in_order(base: Seq<Window>, added: Seq<Window>) -> Seq<Window>
    decreases added.len(),
{
    if added.len() == 0 {
        base
    } else {
        appended_in_order(base.push(added[0]), added.skip(1))
    }
}

/// The window list left by creating each window of `added` in order under
/// the `Top` insertion behaviour: each step prepends.
pub open spec fn prepended_in_order(base: Seq<Window>, added: Seq<Window>) -> Seq<Window>
    decreases added.len(),
{
    if added.len() == 0 {
        base
    } else {
        prepended_in_order(seq![added[0]] + base, added.skip(1))
    }
}

/// Insertion-behaviour law, `Bottom`: windows created in sequence end up
/// in creation order.
pub proof fn lemma_bottom_keeps_creation_order(base: Seq<Window>, added: Seq<Window>)
    ensures
        appended_in_order(base, added) == base + added,
    decreases added.len(),
{
    if added.len() == 0 {
        assert(base + added =~= base);
    } else {
        lemma_bottom_keeps_creation_order(base.push(added[0]), added.skip(1));
        assert(base.push(added[0]) + added.skip(1) =~= base + added);
    }
}

/// Insertion-behaviour law, `Top`: windows created in sequence end up in
/// exact reverse creation order.
pub proof fn lemma_top_reverses_creation_order(base: Seq<Window>, added: Seq<Window>)
    ensures
        prepended_in_order(base, added) == added.reverse() + base,
    decreases added.len(),
{
    if added.len() == 0 {
        assert(added.reverse() + base =~= base);
    } else {
        lemma_top_reverses_creation_order(seq![added[0]] + base, added.skip(1));
        assert(added.skip(1).reverse() + (seq![added[0]] + base) =~= added.reverse() + base);
    }
}

/// Insertion-behaviour law, `AfterCurrent`: the new window lands
/// immediately after whichever window currently holds focus, and every
/// other window keeps its relative position.
pub proof fn lemma_after_current_lands_after_focused(state: State, w: Window)
    requires
        state.insert_behavior == InsertBehavior::AfterCurrent,
        current_index_s(state) < state.windows@.len(),
    ensures
        ({
            let cur = current_index_s(state);
            let r = behavior_windows_s(state, w);
            &&& r.len() == state.windows@.len() + 1
            &&& r[cur + 1] == w
            &&& forall|j: int| 0 <= j <= cur ==> r[j] == state.windows@[j]
            &&& forall|j: int| cur + 1 < j < r.len() ==> r[j] == state.windows@[j - 1]
        }),
{
    match state.focus_manager.focused_window_s() {
        Some(h) => {
            helpers::lemma_find_idx_spec(state.windows@, helpers::win_handle_is(h));
        },
        None => {},
    }
}

/// Insertion-behaviour law, `BeforeCurrent`: the new window lands
/// immediately before whichever window currently holds focus.
pub proof fn lemma_before_current_lands_before_focused(state: State, w: Window)
    requires
        state.insert_behavior == InsertBehavior::BeforeCurrent,
        current_index_s(state) <= state.windows@.len(),
    ensures
        ({
            let cur = current_index_s(state);
            let r = behavior_windows_s(state, w);
            &&& r.len() == state.windows@.len() + 1
            &&& r[cur] == w
            &&& forall|j: int| 0 <= j < cur ==> r[j] == state.windows@[j]
            &&& forall|j: int| cur < j < r.len() ==> r[j] == state.windows@[j - 1]
        }),
{
    match state.focus_manager.focused_window_s() {
        Some(h) => {
            helpers::lemma_find_idx_spec(state.windows@, helpers::win_handle_is(h));
        },
        None => {},
    }
}

/// Monocle-insertion law: under the `Monocle` layout a newly created
/// Normal window always ends up at stacking position 0 among its tag's
/// windows, and if a fullscreen window was among them, the new window is
/// also made fullscreen.
pub proof fn lemma_monocle_new_window_first(state: State, w: Window, layout: Layout)
    requires
        w.kind == WindowType::Normal,
        layout == Layout::Monocle,
    ensures
        insert_windows_s(state, w, layout).filter(same_tag_managed(w.tag)) == seq![w]
            + state.windows@.filter(same_tag_managed(w.tag)),
        insert_windows_s(state, w, layout).filter(same_tag_managed(w.tag))[0] == w,
        helpers::find_idx(state.windows@, fullscreen_peer(w.tag)) is Some
            ==> insert_actions_s(state, w, layout).last() == DisplayAction::SetState(
            w.handle,
            !w.is_fullscreen_s(),
            WindowState::Fullscreen,
        ),
{
    let p = same_tag_managed(w.tag);
    let q = not_same_tag_managed(w.tag);
    let group = state.windows@.filter(p);
    let rest = state.windows@.filter(q);
    let r = insert_windows_s(state, w, layout);
    assert(r == rest + seq![w] + group);
    Seq::filter_distributes_over_add(rest + seq![w], group, p);
    Seq::filter_distributes_over_add(rest, seq![w], p);
    assert(rest.filter(p) =~= Seq::<Window>::empty()) by {
        assert forall|i: int| 0 <= i < rest.len() implies !p(#[trigger] rest[i]) by {
            state.windows@.lemma_filter_pred(q, i);
        }
        helpers::lemma_filter_none(rest, p);
    }
    assert(seq![w].filter(p) =~= seq![w]) by {
        reveal(Seq::filter);
        assert(Seq::<Window>::empty().push(w) =~= seq![w]);
        helpers::lemma_filter_push(Seq::<Window>::empty(), w, p);
        assert(p(w));
    }
    assert(group.filter(p) =~= group) by {
        assert forall|i: int| 0 <= i < group.len() implies p(#[trigger] group[i]) by {
            state.windows@.lemma_filter_pred(p, i);
        }
        helpers::lemma_filter_all(group, p);
    }
    assert(r.filter(p) =~= seq![w] + group);
}

/// Position of the currently focused window, 0 when nothing is focused or
/// the handle is unknown.
fn current_index(state: &State) -> (r: usize)
    ensures
        r as int == current_index_s(*state),
        r == 0 || r < state.windows@.len(),
{
    let front = match state.focus_manager.window_history.get(0) {
        Some(f) => *f,
        None => None,
    };
    match front {
        Some(h) => match helpers::position_of_handle(&state.windows, h) {
            Some(i) => i,
            None => 0,
        },
        None => 0,
    }
}

} // verus!
