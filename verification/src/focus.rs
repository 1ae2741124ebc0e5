//! The focus manager: focus history, per-tag last-focused window, and the
//! behaviour flags the placement policy consults.

use vstd::prelude::*;

use crate::helpers;
use crate::window::{Window, WindowHandle};
use crate::workspace::Workspace;

verus! {

/// Focus mode.
#[derive(Clone, Copy, Debug, PartialEq, Eq, Structural)]
pub enum FocusBehaviour {
    /// Focus follows the mouse.
    Sloppy,
    ClickTo,
    Driven,
}

impl FocusBehaviour {
    pub open spec fn is_sloppy_s(self) -> bool {
        self == FocusBehaviour::Sloppy
    }

    pub fn is_sloppy(&self) -> (r: bool)
        ensures
            r == self.is_sloppy_s(),
    {
        matches!(self, FocusBehaviour::Sloppy)
    }
}

/// Focus history and behaviour flags.  Updated only by the policy's
/// focus-transfer calls.
#[derive(Clone, Debug)]
pub struct FocusManager {
    pub behaviour: FocusBehaviour,
    pub focus_new_windows: bool,
    pub sloppy_mouse_follows_focus: bool,
    /// Previously and currently focused handles, front = most recent; a
    /// `None` front means "nothing focused".
    pub window_history: Vec<Option<WindowHandle>>,
    /// Indices into the workspace list, front = current workspace.
    pub workspace_history: Vec<usize>,
    /// Last-focused window per tag, used to restore focus on tag revisit.
    pub tags_last_window: Vec<(usize, WindowHandle)>,
}

impl FocusManager {
    pub open spec fn wf(self) -> bool {
        helpers::unique_keys(self.tags_last_window@)
    }

    /// The handle at the front of the focus history, if any.
    pub open spec fn focused_window_s(self) -> Option<WindowHandle> {
        if self.window_history@.len() > 0 {
            self.window_history@[0]
        } else {
            None
        }
    }

    /// The index of the current workspace, if the history front names a
    /// valid one.
    pub open spec fn focused_workspace_idx_s(self, n: int) -> Option<int> {
        if self.workspace_history@.len() > 0 && self.workspace_history@[0] < n {
            Some(self.workspace_history@[0] as int)
        } else {
            None
        }
    }

    pub fn new(behaviour: FocusBehaviour, focus_new_windows: bool, sloppy_mouse_follows_focus: bool)
        -> (r: FocusManager)
        ensures
            r.behaviour == behaviour,
            r.focus_new_windows == focus_new_windows,
            r.sloppy_mouse_follows_focus == sloppy_mouse_follows_focus,
            r.window_history@ == Seq::<Option<WindowHandle>>::empty(),
            r.workspace_history@ == Seq::<usize>::empty(),
            r.tags_last_window@ == Seq::<(usize, WindowHandle)>::empty(),
            r.wf(),
    {
        FocusManager {
            behaviour,
            focus_new_windows,
            sloppy_mouse_follows_focus,
            window_history: Vec::new(),
            workspace_history: Vec::new(),
            tags_last_window: Vec::new(),
        }
    }

    /// The currently focused window within `windows`, if the history front
    /// holds a handle that is present.
    pub fn window<'a>(&self, windows: &'a Vec<Window>) -> (r: Option<&'a Window>)
        ensures
            match self.focused_window_s() {
                Some(h) => match helpers::find_handle_idx(windows@, h) {
                    Some(i) => r is Some && *r.unwrap() == windows@[i],
                    None => r is None,
                },
                None => r is None,
            },
    {
        match self.window_history.get(0) {
            Some(front) => match front {
                Some(h) => {
                    let h = *h;
                    match helpers::position_of_handle(windows, h) {
                        Some(i) => Some(&windows[i]),
                        None => None,
                    }
                },
                None => None,
            },
            None => None,
        }
    }

    /// The current workspace, if the workspace history front is valid.
    pub fn workspace<'a>(&self, workspaces: &'a Vec<Workspace>) -> (r: Option<&'a Workspace>)
        ensures
            match self.focused_workspace_idx_s(workspaces@.len() as int) {
                Some(i) => r is Some && *r.unwrap() == workspaces@[i],
                None => r is None,
            },
    {
        match self.workspace_history.get(0) {
            Some(i) => {
                let i = *i;
                if i < workspaces.len() {
                    Some(&workspaces[i])
                } else {
                    None
                }
            },
            None => None,
        }
    }
}

} // verus!
