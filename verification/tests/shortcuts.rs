use webapps::shortcuts::{build_shortcut_listener_js, cycle_index, jump_index, neighbor_index, CycleDir};

#[test]
fn cycle_next_wraps() {
    assert_eq!(cycle_index(0, 3, CycleDir::Next), Some(1));
    assert_eq!(cycle_index(2, 3, CycleDir::Next), Some(0));
}

#[test]
fn cycle_prev_wraps() {
    assert_eq!(cycle_index(1, 3, CycleDir::Prev), Some(0));
    assert_eq!(cycle_index(0, 3, CycleDir::Prev), Some(2));
}

#[test]
fn cycle_empty_returns_none() {
    assert_eq!(cycle_index(0, 0, CycleDir::Next), None);
    assert_eq!(cycle_index(0, 0, CycleDir::Prev), None);
}

#[test]
fn jump_one_based_no_wrap() {
    assert_eq!(jump_index(1, 3), Some(0));
    assert_eq!(jump_index(3, 3), Some(2));
    assert_eq!(jump_index(4, 3), None);
    assert_eq!(jump_index(0, 3), None);
}

#[test]
fn neighbor_prefers_after_then_before() {
    assert_eq!(neighbor_index(1, 3), Some(1));
    assert_eq!(neighbor_index(2, 3), Some(1));
    assert_eq!(neighbor_index(0, 3), Some(0));
}

#[test]
fn neighbor_only_app_returns_none() {
    assert_eq!(neighbor_index(0, 1), None);
    assert_eq!(neighbor_index(0, 0), None);
}

#[test]
fn shortcut_listener_js_contains_all_actions() {
    let js = build_shortcut_listener_js();
    for needle in [
        "cycle-next",
        "cycle-prev",
        "toggle-sidebar",
        "add-app",
        "sleep-app",
        "space-switcher",
        "handle_shortcut",
    ] {
        assert!(js.contains(needle), "shortcut listener JS missing {needle}");
    }
    assert!(js.contains("addEventListener(\"keydown\""));
    assert!(js.contains(", true)"), "listener must bind in the capture phase");
    assert!(js.contains("__webapps_shortcut_listener"), "listener must be idempotent");
    assert!(js.contains("e.preventDefault()"));
    assert!(js.contains("e.stopImmediatePropagation()"));
}

#[test]
fn cycling_forward_then_back_returns_to_start() {
    for start in 0..4usize {
        let next = cycle_index(start, 4, CycleDir::Next).unwrap();
        assert_eq!(cycle_index(next, 4, CycleDir::Prev), Some(start));
    }
}

use webapps::lifecycle::general_space;
use webapps::models::{AppConfig, AppPermissions, GlobalConfig};
use webapps::shortcuts::{handle_shortcut, ShortcutStep};
use webapps::state::AppState;

fn three_apps() -> AppState {
    let mut g = general_space();
    for id in ["a", "b", "c"] {
        g.apps.push(AppConfig {
            id: id.to_string(),
            name: id.to_string(),
            url: format!("https://{id}.com"),
            icon: "auto".to_string(),
            isolation_override: false,
            permissions: AppPermissions::default(),
        });
    }
    AppState::new(GlobalConfig::default(), vec![g])
}

fn opened(step: Result<ShortcutStep, String>) -> Option<String> {
    match step {
        Ok(ShortcutStep::OpenApp { space_id, app_id }) => {
            assert_eq!(space_id, "general");
            Some(app_id)
        }
        _ => None,
    }
}

#[test]
fn cycling_with_and_without_an_active_app() {
    let mut s = three_apps();
    assert_eq!(opened(handle_shortcut(&s, "cycle-next")), Some("a".to_string()));
    assert_eq!(opened(handle_shortcut(&s, "cycle-prev")), Some("c".to_string()));
    s.active_app_id = Some("c".to_string());
    assert_eq!(opened(handle_shortcut(&s, "cycle-next")), Some("a".to_string()));
    assert_eq!(opened(handle_shortcut(&s, "cycle-prev")), Some("b".to_string()));
}

#[test]
fn jumps_and_bad_jumps() {
    let s = three_apps();
    assert_eq!(opened(handle_shortcut(&s, "jump-2")), Some("b".to_string()));
    assert!(matches!(handle_shortcut(&s, "jump-9"), Ok(ShortcutStep::Nothing)));
    assert_eq!(
        handle_shortcut(&s, "jump-x").err(),
        Some("bad jump action: jump-x".to_string())
    );
}

#[test]
fn sleeping_moves_to_the_neighbour() {
    let mut s = three_apps();
    assert!(matches!(handle_shortcut(&s, "sleep-app"), Ok(ShortcutStep::Nothing)));
    s.active_app_id = Some("c".to_string());
    match handle_shortcut(&s, "sleep-app") {
        Ok(ShortcutStep::SleepApp { app_id, then_open }) => {
            assert_eq!(app_id, "c");
            assert_eq!(then_open, Some(("general".to_string(), "b".to_string())));
        }
        _ => panic!("expected a sleep step"),
    }
    s.active_app_id = Some("a".to_string());
    match handle_shortcut(&s, "sleep-app") {
        Ok(ShortcutStep::SleepApp { app_id, then_open }) => {
            assert_eq!(app_id, "a");
            assert_eq!(then_open, Some(("general".to_string(), "b".to_string())));
        }
        _ => panic!("expected a sleep step"),
    }
    s.active_app_id = Some("b".to_string());
    match handle_shortcut(&s, "sleep-app") {
        Ok(ShortcutStep::SleepApp { app_id, then_open }) => {
            assert_eq!(app_id, "b");
            assert_eq!(then_open, Some(("general".to_string(), "c".to_string())));
        }
        _ => panic!("expected a sleep step"),
    }
}

#[test]
fn other_actions() {
    let mut s = three_apps();
    assert!(matches!(handle_shortcut(&s, "toggle-sidebar"), Ok(ShortcutStep::ToggleSidebar)));
    assert!(matches!(handle_shortcut(&s, "space-switcher"), Ok(ShortcutStep::SpaceSwitcher)));
    assert!(matches!(handle_shortcut(&s, "whatever"), Ok(ShortcutStep::Nothing)));
    match handle_shortcut(&s, "add-app") {
        Ok(ShortcutStep::AddAppDialog { space_id }) => assert_eq!(space_id, "general"),
        _ => panic!("expected the add-app dialog"),
    }
    s.active_space_id = "gone".to_string();
    assert_eq!(
        handle_shortcut(&s, "cycle-next").err(),
        Some("Space 'gone' not found".to_string())
    );
}
