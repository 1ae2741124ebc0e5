//! Dock avoid-list recomputation and the property-change handler.

use leftwm_core::geometry::Xyhw;
use leftwm_core::manager::Manager;
use leftwm_core::window::{Window, WindowHandle, WindowState, WindowType};
use leftwm_core::window_changed_handler::WindowChange;
use leftwm_core::workspace::Screen;

#[test]
fn dock_strut_lands_in_exactly_the_workspace_holding_its_center() {
    let mut manager = Manager::new_test(vec![]);
    manager.screen_create_handler(Screen::new(Xyhw::new(0, 0, 800, 600)));
    manager.screen_create_handler(Screen::new(Xyhw::new(900, 0, 800, 600)));

    let mut dock = Window::new(WindowHandle::MockHandle(1), None, None);
    dock.kind = WindowType::Dock;
    manager.window_created_handler(dock, -1, -1, None);

    let strut = Xyhw::new(0, 0, 800, 20);
    let mut change = WindowChange::new(WindowHandle::MockHandle(1));
    change.strut = Some(strut);
    manager.window_changed_handler(change);

    // The strut's center (400, 10) lies inside the first workspace only.
    assert_eq!(manager.state.workspaces[0].avoid, vec![strut]);
    assert_eq!(manager.state.workspaces[1].avoid, Vec::<Xyhw>::new());
}

#[test]
fn destroying_the_dock_empties_the_avoid_list() {
    let mut manager = Manager::new_test(vec![]);
    manager.screen_create_handler(Screen::new(Xyhw::new(0, 0, 800, 600)));

    let mut dock = Window::new(WindowHandle::MockHandle(1), None, None);
    dock.kind = WindowType::Dock;
    manager.window_created_handler(dock, -1, -1, None);
    let mut change = WindowChange::new(WindowHandle::MockHandle(1));
    change.strut = Some(Xyhw::new(0, 0, 800, 20));
    manager.window_changed_handler(change);
    assert_eq!(manager.state.workspaces[0].avoid.len(), 1);

    manager.window_destroyed_handler(&WindowHandle::MockHandle(1));

    assert_eq!(manager.state.workspaces[0].avoid.len(), 0);
}

#[test]
fn a_top_strut_trims_the_usable_area_from_the_top() {
    let mut manager = Manager::new_test(vec![]);
    manager.screen_create_handler(Screen::new(Xyhw::new(0, 0, 800, 600)));

    let mut dock = Window::new(WindowHandle::MockHandle(1), None, None);
    dock.kind = WindowType::Dock;
    manager.window_created_handler(dock, -1, -1, None);
    let mut change = WindowChange::new(WindowHandle::MockHandle(1));
    change.strut = Some(Xyhw::new(0, 0, 800, 20));
    manager.window_changed_handler(change);

    assert_eq!(manager.state.workspaces[0].xyhw_avoided, Xyhw::new(0, 20, 800, 580));
}

#[test]
fn change_reports_whether_anything_changed() {
    let mut manager = Manager::new_test(vec![]);
    manager.screen_create_handler(Screen::default());
    manager.window_created_handler(
        Window::new(WindowHandle::MockHandle(1), None, None),
        -1,
        -1,
        None,
    );

    let mut change = WindowChange::new(WindowHandle::MockHandle(1));
    change.states = Some(vec![WindowState::Fullscreen]);
    assert!(manager.window_changed_handler(change));

    // The identical delta changes nothing the second time.
    let mut same = WindowChange::new(WindowHandle::MockHandle(1));
    same.states = Some(vec![WindowState::Fullscreen]);
    assert!(!manager.window_changed_handler(same));
}

#[test]
fn change_to_an_unknown_handle_applies_nothing() {
    let mut manager = Manager::new_test(vec![]);
    manager.screen_create_handler(Screen::default());

    let mut change = WindowChange::new(WindowHandle::MockHandle(7));
    change.states = Some(vec![WindowState::Fullscreen]);

    assert!(!manager.window_changed_handler(change));
    assert_eq!(manager.state.windows.len(), 0);
}

#[test]
fn a_strut_change_for_an_unknown_handle_leaves_the_caches_alone() {
    let mut manager = Manager::new_test(vec![]);
    manager.screen_create_handler(Screen::new(Xyhw::new(0, 0, 800, 600)));
    // Plant a distinctive usable-area cache: a true no-op must not even
    // refresh it.
    manager.state.workspaces[0].xyhw_avoided = Xyhw::new(1, 2, 3, 4);

    let mut change = WindowChange::new(WindowHandle::MockHandle(7));
    change.strut = Some(Xyhw::new(0, 0, 800, 20));

    assert!(!manager.window_changed_handler(change));
    assert_eq!(manager.state.workspaces[0].xyhw_avoided, Xyhw::new(1, 2, 3, 4));
    assert_eq!(manager.state.workspaces[0].avoid.len(), 0);
}

#[test]
fn change_updates_the_window_kind() {
    let mut manager = Manager::new_test(vec![]);
    manager.screen_create_handler(Screen::default());
    manager.window_created_handler(
        Window::new(WindowHandle::MockHandle(1), None, None),
        -1,
        -1,
        None,
    );

    let mut change = WindowChange::new(WindowHandle::MockHandle(1));
    change.kind = Some(WindowType::Dock);
    assert!(manager.window_changed_handler(change));
    assert_eq!(manager.state.windows[0].kind, WindowType::Dock);
}
