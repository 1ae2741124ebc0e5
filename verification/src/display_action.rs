//! Outgoing display actions.  The policy appends them to the action queue;
//! the display-server adapter drains the queue in FIFO order and executes
//! each action against the real display server.

use vstd::prelude::*;

use crate::window::{WindowHandle, WindowState};

verus! {

#[derive(Clone, Debug, PartialEq)]
pub enum DisplayAction {
    /// The policy now manages this window: handle, floating, follow-mouse.
    AddedWindow(WindowHandle, bool, bool),
    /// Tell the display server which desktop the window belongs to.
    SetWindowTag(WindowHandle, Option<usize>),
    /// Ask the server to set or clear one window state.
    SetState(WindowHandle, bool, WindowState),
    /// Transfer focus to this window.
    FocusWindow(WindowHandle),
    /// Focus whatever window is under the pointer.
    FocusWindowUnderCursor,
    /// Explicitly drop focus: formerly focused handle and its floating flag.
    Unfocus(Option<WindowHandle>, bool),
    /// Restack the managed windows in this order, front = topmost.
    SetWindowOrder(Vec<WindowHandle>),
    /// Re-send the window's current geometry and state so it keeps
    /// receiving input (used to nudge docks).
    RefreshWindow(WindowHandle),
}

} // verus!
