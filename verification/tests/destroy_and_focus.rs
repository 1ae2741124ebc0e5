//! Focus restoration on window destruction, and the focus-successor query.

use leftwm_core::config::Config;
use leftwm_core::display_action::DisplayAction;
use leftwm_core::focus::FocusBehaviour;
use leftwm_core::manager::Manager;
use leftwm_core::window::{Window, WindowHandle};
use leftwm_core::workspace::Screen;

#[test]
fn destroying_the_last_window_unfocuses_explicitly() {
    let mut manager = Manager::new_test(vec![]);
    manager.screen_create_handler(Screen::default());
    manager.window_created_handler(
        Window::new(WindowHandle::MockHandle(1), None, None),
        -1,
        -1,
        None,
    );

    let rendered = manager.window_destroyed_handler(&WindowHandle::MockHandle(1));

    assert!(rendered);
    assert_eq!(manager.state.windows.len(), 0);
    assert_eq!(
        manager.state.actions.last(),
        Some(&DisplayAction::Unfocus(Some(WindowHandle::MockHandle(1)), false))
    );
    // A `None` sentinel is pushed onto the focus history front.
    assert_eq!(manager.state.focus_manager.window_history.first(), Some(&None));
}

#[test]
fn destroying_a_transient_child_focuses_its_parent() {
    let mut manager = Manager::new_test(vec![]);
    manager.screen_create_handler(Screen::default());
    manager.window_created_handler(
        Window::new(WindowHandle::MockHandle(1), None, None),
        -1,
        -1,
        None,
    );
    let mut child = Window::new(WindowHandle::MockHandle(2), None, None);
    child.transient = Some(WindowHandle::MockHandle(1));
    manager.window_created_handler(child, -1, -1, None);
    manager.state.focus_window(&WindowHandle::MockHandle(2));

    manager.window_destroyed_handler(&WindowHandle::MockHandle(2));

    assert_eq!(
        manager.state.actions.last(),
        Some(&DisplayAction::FocusWindow(WindowHandle::MockHandle(1)))
    );
    assert_eq!(
        manager.state.focus_manager.window_history.first(),
        Some(&Some(WindowHandle::MockHandle(1)))
    );
}

#[test]
fn destroying_the_focused_window_focuses_the_successor() {
    let mut manager = Manager::new_test(vec![]);
    manager.screen_create_handler(Screen::default());
    for i in 1..=3 {
        manager.window_created_handler(
            Window::new(WindowHandle::MockHandle(i), None, None),
            -1,
            -1,
            None,
        );
    }
    manager.state.focus_window(&WindowHandle::MockHandle(2));

    manager.window_destroyed_handler(&WindowHandle::MockHandle(2));

    // The next window in list order takes focus.
    assert_eq!(
        manager.state.actions.last(),
        Some(&DisplayAction::FocusWindow(WindowHandle::MockHandle(3)))
    );
    assert_eq!(manager.state.windows.len(), 2);
}

#[test]
fn destroying_under_sloppy_mouse_follow_asks_for_cursor_focus() {
    // The default configuration keeps sloppy focus with mouse-follow.
    let mut manager = Manager::new(Config::default());
    manager.screen_create_handler(Screen::default());
    manager.window_created_handler(
        Window::new(WindowHandle::MockHandle(1), None, None),
        -1,
        -1,
        None,
    );

    manager.window_destroyed_handler(&WindowHandle::MockHandle(1));

    assert_eq!(
        manager.state.actions.last(),
        Some(&DisplayAction::FocusWindowUnderCursor)
    );
}

#[test]
fn destroying_under_click_to_focus_unfocuses_explicitly() {
    let mut config = Config::default();
    config.focus_behaviour = FocusBehaviour::ClickTo;
    let mut manager = Manager::new(config);
    manager.screen_create_handler(Screen::default());
    manager.window_created_handler(
        Window::new(WindowHandle::MockHandle(1), None, None),
        -1,
        -1,
        None,
    );

    manager.window_destroyed_handler(&WindowHandle::MockHandle(1));

    assert_eq!(
        manager.state.actions.last(),
        Some(&DisplayAction::Unfocus(Some(WindowHandle::MockHandle(1)), false))
    );
    assert_eq!(manager.state.focus_manager.window_history.first(), Some(&None));
}

#[test]
fn destroying_an_unknown_handle_is_a_no_op() {
    let mut manager = Manager::new_test(vec![]);
    manager.screen_create_handler(Screen::default());
    manager.window_created_handler(
        Window::new(WindowHandle::MockHandle(1), None, None),
        -1,
        -1,
        None,
    );
    let actions_before = manager.state.actions.len();

    let rendered = manager.window_destroyed_handler(&WindowHandle::MockHandle(9));

    assert!(!rendered);
    assert_eq!(manager.state.windows.len(), 1);
    assert_eq!(manager.state.actions.len(), actions_before);
}

#[test]
fn destroying_purges_the_tags_last_window_entry() {
    let mut manager = Manager::new_test(vec![]);
    manager.screen_create_handler(Screen::default());
    manager.window_created_handler(
        Window::new(WindowHandle::MockHandle(1), None, None),
        -1,
        -1,
        None,
    );
    assert!(manager
        .state
        .focus_manager
        .tags_last_window
        .iter()
        .any(|(_, h)| *h == WindowHandle::MockHandle(1)));

    manager.window_destroyed_handler(&WindowHandle::MockHandle(1));

    assert!(!manager
        .state
        .focus_manager
        .tags_last_window
        .iter()
        .any(|(_, h)| *h == WindowHandle::MockHandle(1)));
}

#[test]
fn next_or_previous_prefers_the_next_window() {
    let mut manager = Manager::new_test(vec![]);
    manager.screen_create_handler(Screen::default());
    for i in 1..=3 {
        manager.window_created_handler(
            Window::new(WindowHandle::MockHandle(i), None, None),
            -1,
            -1,
            None,
        );
    }

    assert_eq!(
        manager.get_next_or_previous_handle(&WindowHandle::MockHandle(2)),
        Some(WindowHandle::MockHandle(3))
    );
    assert_eq!(
        manager.get_next_or_previous_handle(&WindowHandle::MockHandle(3)),
        Some(WindowHandle::MockHandle(2))
    );
    assert_eq!(
        manager.get_next_or_previous_handle(&WindowHandle::MockHandle(1)),
        Some(WindowHandle::MockHandle(2))
    );
}

#[test]
fn next_or_previous_of_a_lone_window_is_none() {
    let mut manager = Manager::new_test(vec![]);
    manager.screen_create_handler(Screen::default());
    manager.window_created_handler(
        Window::new(WindowHandle::MockHandle(1), None, None),
        -1,
        -1,
        None,
    );

    assert_eq!(manager.get_next_or_previous_handle(&WindowHandle::MockHandle(1)), None);
}
