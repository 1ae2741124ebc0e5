//! The shared mutable aggregate the placement policy operates on: the
//! window list, the workspace list, the focus manager, the tag registry and
//! the outgoing action queue.

use vstd::prelude::*;

use crate::config::{Config, InsertBehavior, ScratchPad};
use crate::display_action::DisplayAction;
use crate::focus::FocusManager;
use crate::helpers;
use crate::window::{Window, WindowHandle, WindowType};
use crate::workspace::Workspace;

verus! {

/// A workspace label.  Windows attach to tags by id; hidden tags (the
/// scratchpad tag) are never shown on a workspace.
#[derive(Clone, Debug)]
pub struct Tag {
    pub id: usize,
    pub label: String,
    pub hidden: bool,
}

/// The tag registry.
#[derive(Clone, Debug)]
pub struct Tags {
    pub list: Vec<Tag>,
}

/// A hidden tag carrying this label.
pub open spec fn hidden_labeled(label: Seq<char>) -> spec_fn(Tag) -> bool {
    |t: Tag| t.hidden && t.label@ == label
}

impl Tags {
    /// The first hidden tag carrying this label.
    pub fn get_hidden_by_label<'a>(&'a self, label: &String) -> (r: Option<&'a Tag>)
        ensures
            match helpers::find_idx(self.list@, hidden_labeled(label@)) {
                Some(i) => r is Some && *r.unwrap() == self.list@[i],
                None => r is None,
            },
    {
        proof {
            helpers::lemma_find_idx_spec(self.list@, hidden_labeled(label@));
        }
        let mut i: usize = 0;
        while i < self.list.len()
            invariant
                0 <= i <= self.list.len(),
                forall|j: int| 0 <= j < i ==> !hidden_labeled(label@)(#[trigger] self.list@[j]),
            decreases self.list.len() - i,
        {
            if self.list[i].hidden && self.list[i].label.eq(label) {
                proof {
                    assert(hidden_labeled(label@)(self.list@[i as int]));
                    match helpers::find_idx(self.list@, hidden_labeled(label@)) {
                        Some(k) => {
                            if k < i {
                                assert(hidden_labeled(label@)(self.list@[k]));
                            } else if k > i {
                                assert(!hidden_labeled(label@)(self.list@[i as int]));
                            }
                        },
                        None => {
                            assert(!hidden_labeled(label@)(self.list@[i as int]));
                        },
                    }
                }
                return Some(&self.list[i]);
            }
            i = i + 1;
        }
        proof {
            match helpers::find_idx(self.list@, hidden_labeled(label@)) {
                Some(k) => {
                    assert(hidden_labeled(label@)(self.list@[k]));
                },
                None => {},
            }
        }
        None
    }
}

/// The entry carries tag `t`.
pub open spec fn tag_key_is(t: usize) -> spec_fn((usize, WindowHandle)) -> bool {
    |q: (usize, WindowHandle)| q.0 == t
}

/// New value of the per-tag last-focused map after focusing `h` on tag `t`:
/// the existing entry is replaced, or a new one appended.
pub open spec fn upsert_tag_s(
    s: Seq<(usize, WindowHandle)>,
    t: usize,
    h: WindowHandle,
) -> Seq<(usize, WindowHandle)> {
    match helpers::find_idx(s, tag_key_is(t)) {
        Some(i) => s.update(i, (t, h)),
        None => s.push((t, h)),
    }
}

/// Stacking layer of a window, topmost first: floating and dialog-like
/// windows, then tiled windows, then docks, then desktop windows.
pub open spec fn stack_layer_s(w: Window) -> int {
    if w.kind == WindowType::Desktop {
        3
    } else if w.kind == WindowType::Dock {
        2
    } else if w.floating_s() || w.kind == WindowType::Toolbar || w.kind == WindowType::Menu
        || w.kind == WindowType::Utility {
        0
    } else {
        1
    }
}

/// The restacking order derived from the window list: layer by layer,
/// keeping list order within each layer.
pub open spec fn stack_order_s(ws: Seq<Window>) -> Seq<WindowHandle> {
    helpers::handles_of(ws.filter(|w: Window| stack_layer_s(w) == 0)) + helpers::handles_of(
        ws.filter(|w: Window| stack_layer_s(w) == 1),
    ) + helpers::handles_of(ws.filter(|w: Window| stack_layer_s(w) == 2))
        + helpers::handles_of(ws.filter(|w: Window| stack_layer_s(w) == 3))
}

/// The action `a` restacks exactly the windows of `ws`, layer by layer.
pub open spec fn is_restack_of(a: DisplayAction, ws: Seq<Window>) -> bool {
    a matches DisplayAction::SetWindowOrder(v) && v@ == stack_order_s(ws)
}

/// The four stacking layers partition the window list, so the restack
/// order holds exactly one entry per window.
pub proof fn lemma_stack_order_len(ws: Seq<Window>)
    ensures
        stack_order_s(ws).len() == ws.len(),
    decreases ws.len(),
{
    reveal(Seq::filter);
    if ws.len() > 0 {
        let s0 = ws.drop_last();
        let x = ws.last();
        lemma_stack_order_len(s0);
        assert(s0.push(x) =~= ws);
        helpers::lemma_filter_push(s0, x, |w: Window| stack_layer_s(w) == 0);
        helpers::lemma_filter_push(s0, x, |w: Window| stack_layer_s(w) == 1);
        helpers::lemma_filter_push(s0, x, |w: Window| stack_layer_s(w) == 2);
        helpers::lemma_filter_push(s0, x, |w: Window| stack_layer_s(w) == 3);
    }
}

/// Every window's handle appears in the restack order, and every entry of
/// the restack order is some window's handle: the adapter restacks exactly
/// the managed windows.
pub proof fn lemma_stack_order_covers(ws: Seq<Window>)
    ensures
        forall|i: int|
            0 <= i < ws.len() ==> stack_order_s(ws).contains(#[trigger] ws[i].handle),
        forall|j: int|
            0 <= j < stack_order_s(ws).len() ==> helpers::handle_in(
                ws,
                #[trigger] stack_order_s(ws)[j],
            ),
{
    let p0 = |w: Window| stack_layer_s(w) == 0;
    let p1 = |w: Window| stack_layer_s(w) == 1;
    let p2 = |w: Window| stack_layer_s(w) == 2;
    let p3 = |w: Window| stack_layer_s(w) == 3;
    let h0 = helpers::handles_of(ws.filter(p0));
    let h1 = helpers::handles_of(ws.filter(p1));
    let h2 = helpers::handles_of(ws.filter(p2));
    let h3 = helpers::handles_of(ws.filter(p3));
    let order = stack_order_s(ws);
    assert(order == h0 + h1 + h2 + h3);
    assert forall|i: int| 0 <= i < ws.len() implies order.contains(#[trigger] ws[i].handle) by {
        let l = stack_layer_s(ws[i]);
        if l == 0 {
            ws.lemma_filter_contains(p0, i);
            let q = choose|q: int| 0 <= q < ws.filter(p0).len() && ws.filter(p0)[q] == ws[i];
            assert(order[q] == ws[i].handle);
        } else if l == 1 {
            ws.lemma_filter_contains(p1, i);
            let q = choose|q: int| 0 <= q < ws.filter(p1).len() && ws.filter(p1)[q] == ws[i];
            assert(order[h0.len() + q] == ws[i].handle);
        } else if l == 2 {
            ws.lemma_filter_contains(p2, i);
            let q = choose|q: int| 0 <= q < ws.filter(p2).len() && ws.filter(p2)[q] == ws[i];
            assert(order[h0.len() + h1.len() + q] == ws[i].handle);
        } else {
            ws.lemma_filter_contains(p3, i);
            let q = choose|q: int| 0 <= q < ws.filter(p3).len() && ws.filter(p3)[q] == ws[i];
            assert(order[h0.len() + h1.len() + h2.len() + q] == ws[i].handle);
        }
    }
    assert forall|j: int| 0 <= j < order.len() implies helpers::handle_in(
        ws,
        #[trigger] order[j],
    ) by {
        if j < h0.len() {
            let f = ws.filter(p0);
            assert(order[j] == f[j].handle);
            assert(f.contains(f[j]));
            ws.lemma_filter_contains_rev(p0, f[j]);
            let k = choose|k: int| 0 <= k < ws.len() && ws[k] == f[j];
        } else if j < h0.len() + h1.len() {
            let f = ws.filter(p1);
            let q = j - h0.len();
            assert(order[j] == f[q].handle);
            assert(f.contains(f[q]));
            ws.lemma_filter_contains_rev(p1, f[q]);
            let k = choose|k: int| 0 <= k < ws.len() && ws[k] == f[q];
        } else if j < h0.len() + h1.len() + h2.len() {
            let f = ws.filter(p2);
            let q = j - h0.len() - h1.len();
            assert(order[j] == f[q].handle);
            assert(f.contains(f[q]));
            ws.lemma_filter_contains_rev(p2, f[q]);
            let k = choose|k: int| 0 <= k < ws.len() && ws[k] == f[q];
        } else {
            let f = ws.filter(p3);
            let q = j - h0.len() - h1.len() - h2.len();
            assert(order[j] == f[q].handle);
            assert(f.contains(f[q]));
            ws.lemma_filter_contains_rev(p3, f[q]);
            let k = choose|k: int| 0 <= k < ws.len() && ws[k] == f[q];
        }
    }
}

/// A workspace with its cached usable area recomputed.
pub open spec fn ws_with_avoided_s(w: Workspace) -> Workspace {
    Workspace { xyhw_avoided: Workspace::avoided_area_s(w.xyhw, w.avoid@), ..w }
}

/// The shared state.
#[derive(Debug)]
pub struct State {
    /// Order is the authoritative stacking/insertion order.
    pub windows: Vec<Window>,
    pub workspaces: Vec<Workspace>,
    pub focus_manager: FocusManager,
    /// Outgoing display actions, drained by the adapter in FIFO order.
    pub actions: Vec<DisplayAction>,
    pub insert_behavior: InsertBehavior,
    /// Declared scratchpad templates.
    pub scratchpads: Vec<ScratchPad>,
    /// Scratchpad name to the process ids of its spawned clients.
    pub active_scratchpads: Vec<(String, Vec<u32>)>,
    pub tags: Tags,
}

impl State {
    pub open spec fn wf(self) -> bool {
        &&& forall|i: int| 0 <= i < self.windows@.len() ==> (#[trigger] self.windows@[i]).wf()
        &&& helpers::unique_handles(self.windows@)
        &&& forall|i: int|
            0 <= i < self.workspaces@.len() ==> (#[trigger] self.workspaces@[i]).wf()
        &&& self.focus_manager.wf()
        &&& forall|i: int|
            0 <= i < self.scratchpads@.len() ==> (#[trigger] self.scratchpads@[i]).wf()
    }

    /// Everything that no handler mutates: configuration-derived fields and
    /// the tag registry.
    pub open spec fn same_base(self, o: State) -> bool {
        &&& self.insert_behavior == o.insert_behavior
        &&& self.scratchpads == o.scratchpads
        &&& self.active_scratchpads == o.active_scratchpads
        &&& self.tags == o.tags
    }

    /// The focus-manager parts no handler mutates.
    pub open spec fn same_focus_flags(self, o: State) -> bool {
        &&& self.focus_manager.behaviour == o.focus_manager.behaviour
        &&& self.focus_manager.focus_new_windows == o.focus_manager.focus_new_windows
        &&& self.focus_manager.sloppy_mouse_follows_focus
            == o.focus_manager.sloppy_mouse_follows_focus
        &&& self.focus_manager.workspace_history == o.focus_manager.workspace_history
    }

    pub fn new(config: &Config) -> (r: State)
        ensures
            r.windows@ == Seq::<Window>::empty(),
            r.workspaces@ == Seq::<Workspace>::empty(),
            r.actions@ == Seq::<DisplayAction>::empty(),
            r.insert_behavior == config.insert_behavior,
            r.focus_manager.behaviour == config.focus_behaviour,
            r.focus_manager.focus_new_windows == config.focus_new_windows,
            r.focus_manager.sloppy_mouse_follows_focus == config.sloppy_mouse_follows_focus,
            r.focus_manager.window_history@ == Seq::<Option<WindowHandle>>::empty(),
            r.focus_manager.workspace_history@ == Seq::<usize>::empty(),
            r.focus_manager.tags_last_window@ == Seq::<(usize, WindowHandle)>::empty(),
            r.scratchpads@ == match config.scratchpad {
                Some(sp) => sp@,
                None => Seq::<ScratchPad>::empty(),
            },
            r.active_scratchpads@ == Seq::<(String, Vec<u32>)>::empty(),
            r.tags.list@.len() > 0,
            ({
                let last = r.tags.list@.len() - 1;
                &&& last == match config.tags {
                    Some(t) => t@.len() as int,
                    None => 9,
                }
                &&& r.tags.list@[last].hidden == true
                &&& r.tags.list@[last].label@ == "NSP"@
                &&& forall|i: int| 0 <= i < last ==> !(#[trigger] r.tags.list@[i]).hidden
                &&& forall|i: int| 0 <= i < last ==> (#[trigger] r.tags.list@[i]).id == i + 1
            }),
            config.wf() ==> r.wf(),
    {
        let labels = match &config.tags {
            Some(t) => t.len(),
            None => 9,
        };
        let mut list: Vec<Tag> = Vec::new();
        let mut i: usize = 0;
        while i < labels
            invariant
                0 <= i <= labels,
                list@.len() == i,
                forall|j: int| 0 <= j < i ==> !(#[trigger] list@[j]).hidden,
                forall|j: int| 0 <= j < i ==> (#[trigger] list@[j]).id == j + 1,
            decreases labels - i,
        {
            let label = match &config.tags {
                Some(t) => if i < t.len() {
                    t[i].clone()
                } else {
                    String::new()
                },
                None => String::new(),
            };
            list.push(Tag { id: i + 1, label, hidden: false });
            i = i + 1;
        }
        let nsp_id = if labels < usize::MAX {
            labels + 1
        } else {
            usize::MAX
        };
        list.push(Tag { id: nsp_id, label: "NSP".to_owned(), hidden: true });
        State {
            windows: Vec::new(),
            workspaces: Vec::new(),
            focus_manager: FocusManager::new(
                config.focus_behaviour,
                config.focus_new_windows,
                config.sloppy_mouse_follows_focus,
            ),
            actions: Vec::new(),
            insert_behavior: config.insert_behavior,
            scratchpads: config.create_list_of_scratchpads(),
            active_scratchpads: Vec::new(),
            tags: Tags { list },
        }
    }

    /// Transfer focus to the window with this handle, if it is tracked and
    /// not already focused: the handle moves to the front of the focus
    /// history, becomes its tag's last-focused window, and a `FocusWindow`
    /// action is queued.
    pub fn focus_window(&mut self, handle: &WindowHandle)
        requires
            old(self).wf(),
        ensures
            final(self).wf(),
            final(self).windows == old(self).windows,
            final(self).workspaces == old(self).workspaces,
            final(self).same_base(*old(self)),
            final(self).same_focus_flags(*old(self)),
            match helpers::find_handle_idx(old(self).windows@, *handle) {
                None => *final(self) == *old(self),
                Some(i) => {
                    if old(self).focus_manager.focused_window_s() == Some(*handle) {
                        *final(self) == *old(self)
                    } else {
                        &&& final(self).focus_manager.window_history@ == seq![Some(*handle)]
                            + old(self).focus_manager.window_history@
                        &&& final(self).focus_manager.tags_last_window@ == match old(
                            self,
                        ).windows@[i].tag {
                            Some(t) => upsert_tag_s(
                                old(self).focus_manager.tags_last_window@,
                                t,
                                *handle,
                            ),
                            None => old(self).focus_manager.tags_last_window@,
                        }
                        &&& final(self).actions@ == old(self).actions@.push(
                            DisplayAction::FocusWindow(*handle),
                        )
                    }
                },
            },
    {
        let idx = match helpers::position_of_handle(&self.windows, *handle) {
            Some(i) => i,
            None => {
                return ;
            },
        };
        if self.window_history_front_is(handle) {
            return ;
        }
        self.focus_manager.window_history.insert(0, Some(*handle));
        if let Some(t) = self.windows[idx].tag {
            self.upsert_tag_entry(t, *handle);
        }
        self.actions.push(DisplayAction::FocusWindow(*handle));
    }

    /// Whether the focus-history front is exactly this handle.
    fn window_history_front_is(&self, handle: &WindowHandle) -> (r: bool)
        ensures
            r == (self.focus_manager.focused_window_s() == Some(*handle)),
    {
        match self.focus_manager.window_history.get(0) {
            Some(front) => match front {
                Some(h) => h == handle,
                None => false,
            },
            None => false,
        }
    }

    /// Record `h` as the last-focused window of tag `t`.
    fn upsert_tag_entry(&mut self, t: usize, h: WindowHandle)
        requires
            old(self).focus_manager.wf(),
        ensures
            *final(self) == (State {
                focus_manager: FocusManager {
                    tags_last_window: final(self).focus_manager.tags_last_window,
                    ..old(self).focus_manager
                },
                ..*old(self)
            }),
            final(self).focus_manager.tags_last_window@ == upsert_tag_s(
                old(self).focus_manager.tags_last_window@,
                t,
                h,
            ),
            final(self).focus_manager.wf(),
    {
        let ghost s0 = old(self).focus_manager.tags_last_window@;
        let ghost p = tag_key_is(t);
        proof {
            helpers::lemma_find_idx_spec(s0, p);
        }
        let n = self.focus_manager.tags_last_window.len();
        let mut i: usize = 0;
        while i < n
            invariant
                0 <= i <= n,
                n == s0.len(),
                *self == *old(self),
                forall|j: int| 0 <= j < i ==> !p(#[trigger] s0[j]),
            decreases n - i,
        {
            if self.focus_manager.tags_last_window[i].0 == t {
                proof {
                    assert(p(s0[i as int]));
                    match helpers::find_idx(s0, p) {
                        Some(k) => {
                            if k < i {
                                assert(!p(s0[k]));
                            } else if k > i {
                                assert(!p(s0[i as int]));
                            }
                            assert(k == i);
                        },
                        None => {
                            assert(!p(s0[i as int]));
                        },
                    }
                }
                self.focus_manager.tags_last_window.set(i, (t, h));
                return ;
            }
            i = i + 1;
        }
        proof {
            match helpers::find_idx(s0, p) {
                Some(k) => {
                    assert(p(s0[k]));
                    assert(!p(s0[k]));
                },
                None => {},
            }
        }
        self.focus_manager.tags_last_window.push((t, h));
    }

    /// Recompute the stacking order and tell the adapter to restack; the
    /// window list itself is not reordered.
    pub fn sort_windows(&mut self)
        requires
            old(self).wf(),
        ensures
            final(self).wf(),
            *final(self) == (State { actions: final(self).actions, ..*old(self) }),
            final(self).actions@ == old(self).actions@.push(final(self).actions@.last()),
            is_restack_of(final(self).actions@.last(), old(self).windows@),
    {
        let mut order: Vec<WindowHandle> = Vec::new();
        collect_layer(&self.windows, 0, &mut order);
        collect_layer(&self.windows, 1, &mut order);
        collect_layer(&self.windows, 2, &mut order);
        collect_layer(&self.windows, 3, &mut order);
        self.actions.push(DisplayAction::SetWindowOrder(order));
    }

    /// Recompute every workspace's cached usable area (run after a strut
    /// change, so later layout passes see the new avoid regions).
    pub fn update_static(&mut self)
        requires
            old(self).wf(),
        ensures
            final(self).wf(),
            *final(self) == (State { workspaces: final(self).workspaces, ..*old(self) }),
            final(self).workspaces@ == old(self).workspaces@.map_values(
                |w: Workspace| ws_with_avoided_s(w),
            ),
    {
        let ghost orig = self.workspaces@;
        let mut out: Vec<Workspace> = Vec::new();
        while self.workspaces.len() > 0
            invariant
                out@ =~= orig.take(out@.len() as int).map_values(
                    |w: Workspace| ws_with_avoided_s(w),
                ),
                self.workspaces@ =~= orig.skip(out@.len() as int),
                out@.len() <= orig.len(),
                forall|i: int| 0 <= i < orig.len() ==> (#[trigger] orig[i]).wf(),
                forall|i: int| 0 <= i < out@.len() ==> (#[trigger] out@[i]).wf(),
                *self == (State { workspaces: self.workspaces, ..*old(self) }),
            decreases self.workspaces@.len(),
        {
            let ghost k = out@.len() as int;
            let mut ws = self.workspaces.remove(0);
            ws.update_avoided_areas();
            out.push(ws);
            proof {
                assert(orig.take(k + 1) =~= orig.take(k).push(orig[k]));
                assert(out@ =~= orig.take(k + 1).map_values(|w: Workspace| ws_with_avoided_s(w)));
            }
        }
        proof {
            assert(orig.take(out@.len() as int) =~= orig);
        }
        self.workspaces = out;
    }
}

/// Append the handles of the windows on the given stacking layer, in list
/// order.
fn collect_layer(windows: &Vec<Window>, layer: u8, out: &mut Vec<WindowHandle>)
    ensures
        final(out)@ == old(out)@ + helpers::handles_of(
            windows@.filter(|w: Window| stack_layer_s(w) == layer as int),
        ),
{
    let ghost p = |w: Window| stack_layer_s(w) == layer as int;
    let mut i: usize = 0;
    proof {
        assert(windows@.take(0).filter(p) =~= Seq::<Window>::empty());
        assert(out@ =~= old(out)@ + helpers::handles_of(windows@.take(0).filter(p)));
    }
    while i < windows.len()
        invariant
            0 <= i <= windows.len(),
            out@ == old(out)@ + helpers::handles_of(windows@.take(i as int).filter(p)),
        decreases windows.len() - i,
    {
        proof {
            assert(windows@.take(i + 1) =~= windows@.take(i as int).push(windows@[i as int]));
            helpers::lemma_filter_push(windows@.take(i as int), windows@[i as int], p);
            if p(windows@[i as int]) {
                assert(helpers::handles_of(windows@.take(i + 1).filter(p)) =~= helpers::handles_of(
                    windows@.take(i as int).filter(p),
                ).push(windows@[i as int].handle));
            }
        }
        if stack_layer(&windows[i]) == layer {
            out.push(windows[i].handle);
        }
        i = i + 1;
    }
    proof {
        assert(windows@.take(windows@.len() as int) =~= windows@);
    }
}

/// Stacking layer of a window, topmost first.
fn stack_layer(w: &Window) -> (r: u8)
    ensures
        r as int == stack_layer_s(*w),
{
    if w.kind == WindowType::Desktop {
        3
    } else if w.kind == WindowType::Dock {
        2
    } else if w.floating() || w.kind == WindowType::Toolbar || w.kind == WindowType::Menu
        || w.kind == WindowType::Utility {
        0
    } else {
        1
    }
}

} // verus!
