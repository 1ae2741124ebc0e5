//! Insertion-behaviour and creation tests for the window-created handler.

use leftwm_core::config::InsertBehavior;
use leftwm_core::display_action::DisplayAction;
use leftwm_core::window::WindowState;
use leftwm_core::window::WindowType;
use leftwm_core::window_changed_handler::WindowChange;
use leftwm_core::manager::Manager;
use leftwm_core::window::{Window, WindowHandle};
use leftwm_core::workspace::{Layout, Screen};

fn handles(manager: &Manager) -> Vec<WindowHandle> {
    manager.state.windows.iter().map(|w| w.handle).collect()
}

#[test]
fn insert_behavior_bottom_add_window_at_the_end_of_the_stack() {
    let mut manager = Manager::new_test(vec![]);
    manager.state.insert_behavior = InsertBehavior::Bottom;

    manager.screen_create_handler(Screen::default());
    manager.window_created_handler(
        Window::new(WindowHandle::MockHandle(1), None, None),
        -1,
        -1,
        None,
    );
    manager.window_created_handler(
        Window::new(WindowHandle::MockHandle(2), None, None),
        -1,
        -1,
        None,
    );

    let expected = vec![WindowHandle::MockHandle(1), WindowHandle::MockHandle(2)];
    let actual: Vec<WindowHandle> = handles(&manager);

    assert_eq!(actual, expected);
}

#[test]
fn insert_behavior_top_add_window_at_the_top_of_the_stack() {
    let mut manager = Manager::new_test(vec![]);
    manager.state.insert_behavior = InsertBehavior::Top;

    manager.screen_create_handler(Screen::default());
    manager.window_created_handler(
        Window::new(WindowHandle::MockHandle(1), None, None),
        -1,
        -1,
        None,
    );
    manager.window_created_handler(
        Window::new(WindowHandle::MockHandle(2), None, None),
        -1,
        -1,
        None,
    );

    let expected = vec![WindowHandle::MockHandle(2), WindowHandle::MockHandle(1)];
    let actual: Vec<WindowHandle> = handles(&manager);

    assert_eq!(actual, expected);
}

#[test]
fn insert_behavior_after_current_add_window_after_the_current_window() {
    let mut manager = Manager::new_test(vec![]);
    manager.state.insert_behavior = InsertBehavior::AfterCurrent;

    manager.screen_create_handler(Screen::default());
    manager.window_created_handler(
        Window::new(WindowHandle::MockHandle(1), None, None),
        -1,
        -1,
        None,
    );
    manager.window_created_handler(
        Window::new(WindowHandle::MockHandle(2), None, None),
        -1,
        -1,
        None,
    );
    manager.window_created_handler(
        Window::new(WindowHandle::MockHandle(3), None, None),
        -1,
        -1,
        None,
    );

    let expected = vec![
        WindowHandle::MockHandle(1),
        WindowHandle::MockHandle(3),
        WindowHandle::MockHandle(2),
    ];
    let actual: Vec<WindowHandle> = handles(&manager);

    assert_eq!(actual, expected);
}

#[test]
fn insert_behavior_before_current_add_window_before_the_current_window() {
    let mut manager = Manager::new_test(vec![]);
    manager.state.insert_behavior = InsertBehavior::BeforeCurrent;

    manager.screen_create_handler(Screen::default());
    manager.window_created_handler(
        Window::new(WindowHandle::MockHandle(1), None, None),
        -1,
        -1,
        None,
    );
    manager.window_created_handler(
        Window::new(WindowHandle::MockHandle(2), None, None),
        -1,
        -1,
        None,
    );

    manager.window_created_handler(
        Window::new(WindowHandle::MockHandle(3), None, None),
        -1,
        -1,
        None,
    );

    let expected = vec![
        WindowHandle::MockHandle(2),
        WindowHandle::MockHandle(3),
        WindowHandle::MockHandle(1),
    ];
    let actual: Vec<WindowHandle> = handles(&manager);

    assert_eq!(actual, expected);
}

#[test]
fn five_windows_under_bottom_keep_creation_order() {
    let mut manager = Manager::new_test(vec![]);
    manager.state.insert_behavior = InsertBehavior::Bottom;
    manager.screen_create_handler(Screen::default());
    for i in 1..=5 {
        manager.window_created_handler(
            Window::new(WindowHandle::MockHandle(i), None, None),
            -1,
            -1,
            None,
        );
    }

    let expected: Vec<WindowHandle> = (1..=5).map(WindowHandle::MockHandle).collect();
    assert_eq!(handles(&manager), expected);
}

#[test]
fn five_windows_under_top_reverse_creation_order() {
    let mut manager = Manager::new_test(vec![]);
    manager.state.insert_behavior = InsertBehavior::Top;
    manager.screen_create_handler(Screen::default());
    for i in 1..=5 {
        manager.window_created_handler(
            Window::new(WindowHandle::MockHandle(i), None, None),
            -1,
            -1,
            None,
        );
    }

    let expected: Vec<WindowHandle> = (1..=5).rev().map(WindowHandle::MockHandle).collect();
    assert_eq!(handles(&manager), expected);
}

#[test]
fn creating_the_same_handle_twice_is_a_no_op() {
    let mut manager = Manager::new_test(vec![]);
    manager.screen_create_handler(Screen::default());

    let first = manager.window_created_handler(
        Window::new(WindowHandle::MockHandle(1), None, None),
        -1,
        -1,
        None,
    );
    let actions_after_first = manager.state.actions.len();
    let second = manager.window_created_handler(
        Window::new(WindowHandle::MockHandle(1), None, None),
        -1,
        -1,
        None,
    );

    assert!(first);
    assert!(!second);
    assert_eq!(manager.state.windows.len(), 1);
    assert_eq!(manager.state.actions.len(), actions_after_first);
}

#[test]
fn first_window_on_the_active_tag_gets_focus() {
    let mut manager = Manager::new_test(vec![]);
    manager.screen_create_handler(Screen::default());
    manager.window_created_handler(
        Window::new(WindowHandle::MockHandle(1), None, None),
        -1,
        -1,
        None,
    );

    assert_eq!(
        manager.state.focus_manager.window_history.first(),
        Some(&Some(WindowHandle::MockHandle(1)))
    );

    // A second window does not take focus while focus_new_windows is off.
    manager.window_created_handler(
        Window::new(WindowHandle::MockHandle(2), None, None),
        -1,
        -1,
        None,
    );
    assert_eq!(
        manager.state.focus_manager.window_history.first(),
        Some(&Some(WindowHandle::MockHandle(1)))
    );
}

#[test]
fn monocle_insertion_puts_the_new_window_first_and_carries_fullscreen() {
    let mut manager = Manager::new_test(vec![]);
    manager.screen_create_handler(Screen::default());
    manager.state.workspaces[0].layout = Layout::Monocle;

    manager.window_created_handler(
        Window::new(WindowHandle::MockHandle(1), None, None),
        -1,
        -1,
        None,
    );
    let mut change = WindowChange::new(WindowHandle::MockHandle(1));
    change.states = Some(vec![WindowState::Fullscreen]);
    manager.window_changed_handler(change);

    manager.window_created_handler(
        Window::new(WindowHandle::MockHandle(2), None, None),
        -1,
        -1,
        None,
    );

    // The new window lands at stacking position 0 among its tag's windows.
    assert_eq!(handles(&manager)[0], WindowHandle::MockHandle(2));
    assert_eq!(handles(&manager)[1], WindowHandle::MockHandle(1));
    // The previously fullscreen window is toggled off and the new one on.
    assert!(manager.state.actions.contains(&DisplayAction::SetState(
        WindowHandle::MockHandle(1),
        false,
        WindowState::Fullscreen
    )));
    assert!(manager.state.actions.contains(&DisplayAction::SetState(
        WindowHandle::MockHandle(2),
        true,
        WindowState::Fullscreen
    )));
}

#[test]
fn dialog_windows_go_to_the_top_of_the_stack() {
    let mut manager = Manager::new_test(vec![]);
    manager.screen_create_handler(Screen::default());
    manager.window_created_handler(
        Window::new(WindowHandle::MockHandle(1), None, None),
        -1,
        -1,
        None,
    );
    let mut dialog = Window::new(WindowHandle::MockHandle(2), None, None);
    dialog.kind = WindowType::Dialog;
    manager.window_created_handler(dialog, -1, -1, None);

    assert_eq!(handles(&manager)[0], WindowHandle::MockHandle(2));
}
