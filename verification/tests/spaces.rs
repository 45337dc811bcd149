use webapps::models::{GlobalConfig, IsolationMode, SpaceConfig};
use webapps::spaces::{
    check_space_deletable, create_space, delete_space, edit_space, list_spaces, new_space,
    rename_space, reorder_spaces, set_space_isolation, switch_space, target_space_menu,
};
use webapps::lifecycle::general_space;
use webapps::state::AppState;

fn state_with(names: &[&str]) -> AppState {
    let mut spaces = vec![general_space()];
    for n in names {
        spaces.push(new_space(n, None));
    }
    let mut config = GlobalConfig::default();
    config.general.space_order = vec![];
    AppState::new(config, spaces)
}

fn ids(v: &[SpaceConfig]) -> Vec<String> {
    v.iter().map(|s| s.space.id.clone()).collect()
}

#[test]
fn new_space_ids_come_from_the_name() {
    let s = new_space("My Work Stuff", None);
    assert_eq!(s.space.id, "my-work-stuff");
    assert_eq!(s.space.name, "My Work Stuff");
    assert_eq!(s.space.icon, "folder");
    assert_eq!(s.space.color, "#4a9eff");
    assert_eq!(s.space.isolation, IsolationMode::Shared);
    assert!(s.apps.is_empty());
    let c = new_space("X", Some("#123456".to_string()));
    assert_eq!(c.space.color, "#123456");
}

#[test]
fn listing_follows_the_space_order() {
    let mut state = state_with(&["a", "b", "c"]);
    assert_eq!(ids(&list_spaces(&state)), vec!["general", "a", "b", "c"]);
    state.global_config.general.space_order = vec!["c".to_string(), "general".to_string(), "x".to_string(), "c".to_string()];
    assert_eq!(ids(&list_spaces(&state)), vec!["c", "general", "a", "b"]);
}

#[test]
fn created_spaces_are_appended_to_the_order() {
    let mut state = state_with(&[]);
    let s = new_space("Team", None);
    let r = create_space(&mut state, s);
    assert_eq!(r.space.id, "team");
    assert_eq!(ids(&state.spaces), vec!["general", "team"]);
    assert_eq!(state.global_config.general.space_order, vec!["team".to_string()]);
}

#[test]
fn general_cannot_be_deleted() {
    assert_eq!(
        check_space_deletable("general"),
        Err("Cannot delete the default General space".to_string())
    );
    let mut state = state_with(&["a"]);
    assert!(delete_space(&mut state, "general").is_err());
    assert_eq!(state.spaces.len(), 2);
}

#[test]
fn deleting_the_active_space_activates_general() {
    let mut state = state_with(&["a", "b"]);
    state.global_config.general.space_order = vec!["b".to_string(), "a".to_string()];
    switch_space(&mut state, "a").unwrap();
    assert_eq!(state.active_space_id, "a");
    assert_eq!(delete_space(&mut state, "a"), Ok(()));
    assert_eq!(ids(&state.spaces), vec!["general", "b"]);
    assert_eq!(state.active_space_id, "general");
    assert_eq!(state.global_config.general.space_order, vec!["b".to_string()]);
}

#[test]
fn switching_to_a_missing_space_fails() {
    let mut state = state_with(&[]);
    assert_eq!(
        switch_space(&mut state, "nope").map(|s| s.space.id),
        Err("Space 'nope' not found".to_string())
    );
    assert_eq!(state.active_space_id, "general");
}

#[test]
fn rename_edit_and_isolation() {
    let mut state = state_with(&["a"]);
    assert_eq!(rename_space(&mut state, "a", "Alpha".to_string()), Some(1));
    assert_eq!(state.spaces[1].space.name, "Alpha");
    assert_eq!(state.spaces[1].space.id, "a");
    assert_eq!(edit_space(&mut state, "a", None, Some("#000".to_string())), Some(1));
    assert_eq!(state.spaces[1].space.name, "Alpha");
    assert_eq!(state.spaces[1].space.color, "#000");
    assert_eq!(set_space_isolation(&mut state, "a", IsolationMode::PerApp), Some(1));
    assert_eq!(state.spaces[1].space.isolation, IsolationMode::PerApp);
    assert_eq!(rename_space(&mut state, "zz", "Z".to_string()), None);
}

#[test]
fn reorder_and_menu_target() {
    let mut state = state_with(&["a"]);
    reorder_spaces(&mut state, vec!["a".to_string(), "general".to_string()]);
    assert_eq!(ids(&list_spaces(&state)), vec!["a", "general"]);
    assert!(!target_space_menu(&mut state, "general".to_string()));
    assert!(target_space_menu(&mut state, "a".to_string()));
    assert_eq!(state.space_context_menu_target, Some("a".to_string()));
}
