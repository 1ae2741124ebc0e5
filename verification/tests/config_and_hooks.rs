//! The configuration surface: window hooks, scratchpad templates, tag
//! labels and the state-file path.

use leftwm_core::config::{Config, ScratchPad, Size, WindowHook};
use leftwm_core::geometry::Xyhw;
use leftwm_core::manager::Manager;
use leftwm_core::window::{Window, WindowHandle};

fn hook(class: Option<&str>, title: Option<&str>, tag: Option<usize>) -> WindowHook {
    WindowHook {
        window_class: class.map(|s| s.to_string()),
        window_title: title.map(|s| s.to_string()),
        spawn_on_tag: tag,
        spawn_floating: None,
    }
}

#[test]
fn title_matches_score_higher_than_class_matches() {
    let mut window = Window::new(WindowHandle::MockHandle(1), Some("notes".to_string()), None);
    window.res_class = Some("krita".to_string());

    assert_eq!(hook(Some("krita"), None, None).score_window(&window), 1);
    assert_eq!(hook(None, Some("notes"), None).score_window(&window), 2);
    assert_eq!(hook(Some("krita"), Some("notes"), None).score_window(&window), 3);
    assert_eq!(hook(Some("other"), None, None).score_window(&window), 0);
}

#[test]
fn the_best_scoring_hook_applies_and_later_hooks_win_ties() {
    let mut config = Config::default();
    config.window_rules = Some(vec![
        hook(Some("krita"), None, Some(3)),
        hook(Some("krita"), None, Some(5)),
    ]);
    let mut window = Window::new(WindowHandle::MockHandle(1), None, None);
    window.res_class = Some("krita".to_string());

    assert!(config.setup_predefined_window(&mut window));
    assert_eq!(window.tag, Some(5));
}

#[test]
fn a_more_specific_hook_beats_an_earlier_class_hook() {
    let mut config = Config::default();
    config.window_rules = Some(vec![
        hook(Some("krita"), Some("notes"), Some(3)),
        hook(Some("krita"), None, Some(5)),
    ]);
    let mut window = Window::new(WindowHandle::MockHandle(1), Some("notes".to_string()), None);
    window.res_class = Some("krita".to_string());

    assert!(config.setup_predefined_window(&mut window));
    assert_eq!(window.tag, Some(3));
}

#[test]
fn no_matching_hook_leaves_the_window_alone() {
    let mut config = Config::default();
    config.window_rules = Some(vec![hook(Some("krita"), None, Some(3))]);
    let mut window = Window::new(WindowHandle::MockHandle(1), None, None);

    assert!(!config.setup_predefined_window(&mut window));
    assert_eq!(window.tag, None);
}

#[test]
fn a_floating_hook_floats_the_spawned_window() {
    let mut config = Config::default();
    config.window_rules = Some(vec![WindowHook {
        window_class: Some("krita".to_string()),
        window_title: None,
        spawn_on_tag: None,
        spawn_floating: Some(true),
    }]);
    let mut window = Window::new(WindowHandle::MockHandle(1), None, None);
    window.res_class = Some("krita".to_string());

    assert!(config.setup_predefined_window(&mut window));
    assert!(window.floating());
}

#[test]
fn the_state_file_defaults_to_tmp_and_honors_the_override() {
    let config = Config::default();
    assert_eq!(config.state_file(), "/tmp/leftwm.state".to_string());

    let mut with_path = Config::default();
    with_path.state = Some("/var/run/wm.state".to_string());
    assert_eq!(with_path.state_file(), "/var/run/wm.state".to_string());
}

#[test]
fn scratchpad_templates_resolve_against_the_workspace() {
    let pad = ScratchPad {
        name: "term".to_string(),
        x: Size::Pixel(10),
        y: Size::Ratio(500),
        width: Size::Pixel(300),
        height: Size::Ratio(250),
    };
    let ws = Xyhw::new(100, 0, 800, 600);
    assert_eq!(pad.xyhw(&ws), Xyhw::new(110, 300, 300, 150));
}

#[test]
fn the_tag_registry_holds_a_hidden_scratchpad_tag() {
    let manager = Manager::new_test(vec!["one".to_string(), "two".to_string()]);
    let nsp = manager
        .state
        .tags
        .get_hidden_by_label(&"NSP".to_string())
        .expect("the hidden scratchpad tag exists");
    assert!(nsp.hidden);
    assert_eq!(nsp.id, 3);
}

#[test]
fn default_tags_number_nine() {
    let manager = Manager::new_test(vec![]);
    // Nine visible tags plus the hidden scratchpad tag.
    assert_eq!(manager.state.tags.list.len(), 10);
}
