use webapps::apps::{add_app, add_app_with_id, edit_app, get_apps_for_space, remove_app, reorder_apps};
use webapps::lifecycle::general_space;
use webapps::models::{GlobalConfig, PermissionState};
use webapps::state::AppState;

fn state() -> AppState {
    AppState::new(GlobalConfig::default(), vec![general_space()])
}

fn app_ids(state: &AppState) -> Vec<String> {
    get_apps_for_space(state, "general").unwrap().iter().map(|a| a.id.clone()).collect()
}

#[test]
fn added_apps_get_defaults_and_a_uuid() {
    let mut s = state();
    let app = add_app(&mut s, "general", "Mail".to_string(), "https://mail.example.com".to_string(), None).unwrap();
    assert_eq!(app.id.len(), 36);
    assert_eq!(app.id.chars().filter(|c| *c == '-').count(), 4);
    assert_eq!(app.icon, "auto");
    assert!(!app.isolation_override);
    assert_eq!(app.permissions.camera, PermissionState::Ask);
    assert_eq!(app.permissions.microphone, PermissionState::Ask);
    assert_eq!(app_ids(&s), vec![app.id.clone()]);
    assert_eq!(
        add_app(&mut s, "nope", "X".to_string(), "u".to_string(), None).map(|a| a.id),
        Err("Space 'nope' not found".to_string())
    );
}

#[test]
fn remove_edit_and_reorder() {
    let mut s = state();
    for id in ["a", "b", "c"] {
        add_app_with_id(&mut s, "general", id.to_string(), id.to_uppercase(), format!("https://{id}.com"), Some("i".to_string())).unwrap();
    }
    s.active_app_id = Some("b".to_string());
    remove_app(&mut s, "general", "b").unwrap();
    assert_eq!(app_ids(&s), vec!["a", "c"]);
    assert_eq!(s.active_app_id, None);
    let edited = edit_app(&mut s, "general", "c", Some("See".to_string()), None, None, Some(true)).unwrap();
    assert_eq!(edited.name, "See");
    assert_eq!(edited.url, "https://c.com");
    assert!(edited.isolation_override);
    assert_eq!(
        edit_app(&mut s, "general", "zz", None, None, None, None).map(|a| a.id),
        Err("App 'zz' not found".to_string())
    );
    reorder_apps(&mut s, "general", &vec!["c".to_string(), "x".to_string(), "a".to_string(), "c".to_string()]).unwrap();
    assert_eq!(app_ids(&s), vec!["c", "a", "c"]);
}
