//! Floating placement (transient attachment, scratchpads, dialogs) and
//! edge snapping on window moves.

use leftwm_core::config::{ScratchPad, Size};
use leftwm_core::geometry::Xyhw;
use leftwm_core::manager::Manager;
use leftwm_core::window::{Window, WindowHandle, WindowType};
use leftwm_core::workspace::Screen;

#[test]
fn transient_child_is_centered_and_contained_in_the_workspace() {
    let mut manager = Manager::new_test(vec![]);
    manager.screen_create_handler(Screen::default());
    manager.window_created_handler(
        Window::new(WindowHandle::MockHandle(1), None, None),
        -1,
        -1,
        None,
    );
    let mut child = Window::new(WindowHandle::MockHandle(2), None, None);
    child.transient = Some(WindowHandle::MockHandle(1));
    child.requested = Some(Xyhw::new(0, 0, 100, 100));
    manager.window_created_handler(child, -1, -1, None);

    let placed = manager
        .state
        .windows
        .iter()
        .find(|w| w.handle == WindowHandle::MockHandle(2))
        .unwrap();
    assert!(placed.floating());
    let exact = placed.exact_xyhw();
    // Centered on the parent leaves the workspace, so it is re-centered on
    // the workspace itself, honoring the 1px border.
    assert_eq!(exact, Xyhw::new(349, 249, 100, 100));
    assert!(manager.state.workspaces[0].xyhw.contains_xyhw(&exact));
}

#[test]
fn an_oversized_transient_child_falls_back_to_the_half_centered_rect() {
    let mut manager = Manager::new_test(vec![]);
    manager.screen_create_handler(Screen::default());
    manager.window_created_handler(
        Window::new(WindowHandle::MockHandle(1), None, None),
        -1,
        -1,
        None,
    );
    let mut child = Window::new(WindowHandle::MockHandle(2), None, None);
    child.transient = Some(WindowHandle::MockHandle(1));
    child.requested = Some(Xyhw::new(0, 0, 10_000, 10_000));
    manager.window_created_handler(child, -1, -1, None);

    let placed = manager
        .state
        .windows
        .iter()
        .find(|w| w.handle == WindowHandle::MockHandle(2))
        .unwrap();
    let exact = placed.exact_xyhw();
    assert_eq!(exact, Xyhw::new(200, 150, 400, 300));
    assert!(manager.state.workspaces[0].xyhw.contains_xyhw(&exact));
}

#[test]
fn resizable_dialogs_are_floated_centered_at_half_size() {
    let mut manager = Manager::new_test(vec![]);
    manager.screen_create_handler(Screen::default());
    let mut dialog = Window::new(WindowHandle::MockHandle(1), None, None);
    dialog.kind = WindowType::Dialog;
    manager.window_created_handler(dialog, -1, -1, None);

    let placed = &manager.state.windows[0];
    assert!(placed.floating());
    assert_eq!(placed.exact_xyhw(), Xyhw::new(200, 150, 400, 300));
}

#[test]
fn scratchpad_windows_take_the_template_geometry() {
    let mut manager = Manager::new_test(vec![]);
    manager.screen_create_handler(Screen::default());
    manager.state.scratchpads.push(ScratchPad {
        name: "term".to_string(),
        x: Size::Ratio(250),
        y: Size::Ratio(250),
        width: Size::Ratio(500),
        height: Size::Ratio(500),
    });
    manager
        .state
        .active_scratchpads
        .push(("term".to_string(), vec![42]));

    let window = Window::new(WindowHandle::MockHandle(1), None, Some(42));
    assert!(manager.is_scratchpad(&window));
    manager.window_created_handler(window, -1, -1, None);

    let placed = &manager.state.windows[0];
    assert!(placed.floating());
    assert_eq!(placed.exact_xyhw(), Xyhw::new(200, 150, 400, 300));
}

#[test]
fn moving_a_floating_window_within_nine_pixels_snaps_to_the_edge() {
    let mut manager = Manager::new_test(vec![]);
    manager.screen_create_handler(Screen::default());
    let mut floater = Window::new(WindowHandle::MockHandle(1), None, None);
    floater.set_floating(true);
    manager.window_created_handler(floater, -1, -1, None);
    // The window floats at the half-centered rectangle (200, 150, 400, 300).

    manager.window_move_handler(&WindowHandle::MockHandle(1), 9, 100);

    let placed = &manager.state.windows[0];
    assert_eq!(placed.exact_xyhw(), Xyhw::new(0, 100, 400, 300));
}

#[test]
fn moving_a_floating_window_eleven_pixels_from_the_edge_does_not_snap() {
    let mut manager = Manager::new_test(vec![]);
    manager.screen_create_handler(Screen::default());
    let mut floater = Window::new(WindowHandle::MockHandle(1), None, None);
    floater.set_floating(true);
    manager.window_created_handler(floater, -1, -1, None);

    manager.window_move_handler(&WindowHandle::MockHandle(1), 11, 100);

    let placed = &manager.state.windows[0];
    assert_eq!(placed.exact_xyhw(), Xyhw::new(11, 100, 400, 300));
}

#[test]
fn moving_a_floating_window_exactly_ten_pixels_from_the_edge_does_not_snap() {
    let mut manager = Manager::new_test(vec![]);
    manager.screen_create_handler(Screen::default());
    let mut floater = Window::new(WindowHandle::MockHandle(1), None, None);
    floater.set_floating(true);
    manager.window_created_handler(floater, -1, -1, None);

    manager.window_move_handler(&WindowHandle::MockHandle(1), 10, 100);

    let placed = &manager.state.windows[0];
    assert_eq!(placed.exact_xyhw(), Xyhw::new(10, 100, 400, 300));
}

#[test]
fn moving_an_unknown_handle_reports_false() {
    let mut manager = Manager::new_test(vec![]);
    manager.screen_create_handler(Screen::default());

    assert!(!manager.window_move_handler(&WindowHandle::MockHandle(9), 5, 5));
    assert!(!manager.window_resize_handler(&WindowHandle::MockHandle(9), 5, 5));
}

#[test]
fn resizing_grows_the_floating_rectangle_from_the_drag_start_size() {
    let mut manager = Manager::new_test(vec![]);
    manager.screen_create_handler(Screen::default());
    let mut floater = Window::new(WindowHandle::MockHandle(1), None, None);
    floater.set_floating(true);
    manager.window_created_handler(floater, -1, -1, None);

    assert!(manager.window_resize_handler(&WindowHandle::MockHandle(1), 50, 60));

    let placed = &manager.state.windows[0];
    let exact = placed.exact_xyhw();
    // The drag-start size offsets are zero, so the size becomes the tiled
    // frame grown by the delta; the position offsets are kept.
    assert_eq!(exact, Xyhw::new(200, 150, 850, 660));
}
