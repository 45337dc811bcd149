use webapps::models::{AppConfig, AppPermissions, GlobalConfig, IsolationMode, MediaKind, PermissionState, SpaceConfig, SpaceInfo};
use webapps::permissions::{
    app_id_from_label, check_app_media_permissions, cleanup_media_state, get_app_permissions,
    handle_media_request, media_request_decision, respond_media_permission, set_app_permission,
    update_capture_state, MediaDecision,
};
use webapps::state::{AppState, PendingMediaRequest};

fn sample_space() -> SpaceConfig {
    SpaceConfig {
        space: SpaceInfo {
            id: "s1".to_string(),
            name: "S1".to_string(),
            icon: "folder".to_string(),
            color: "#000000".to_string(),
            isolation: IsolationMode::Shared,
        },
        apps: vec![AppConfig {
            id: "a1".to_string(),
            name: "A1".to_string(),
            url: "https://example.com".to_string(),
            icon: "auto".to_string(),
            isolation_override: false,
            permissions: AppPermissions::default(),
        }],
    }
}

fn sample_state() -> AppState {
    AppState::new(GlobalConfig::default(), vec![sample_space()])
}

#[test]
fn mutating_camera_does_not_touch_microphone() {
    let mut space = sample_space();
    let app = space.apps.iter_mut().find(|a| a.id == "a1").unwrap();
    app.permissions.camera = PermissionState::Allow;
    assert_eq!(app.permissions.camera, PermissionState::Allow);
    assert_eq!(app.permissions.microphone, PermissionState::Ask);
}

#[test]
fn set_camera_keeps_microphone() {
    let mut state = sample_state();
    let p = set_app_permission(&mut state, "s1", "a1", MediaKind::Camera, PermissionState::Allow).unwrap();
    assert_eq!(p.camera, PermissionState::Allow);
    assert_eq!(p.microphone, PermissionState::Ask);
    let stored = get_app_permissions(&state, "s1", "a1").unwrap();
    assert_eq!(stored, p);
}

#[test]
fn set_permission_errors_name_the_missing_item() {
    let mut state = sample_state();
    assert_eq!(
        set_app_permission(&mut state, "nope", "a1", MediaKind::Camera, PermissionState::Allow),
        Err("Space 'nope' not found".to_string())
    );
    assert_eq!(
        set_app_permission(&mut state, "s1", "zz", MediaKind::Camera, PermissionState::Allow),
        Err("App 'zz' not found".to_string())
    );
}

#[test]
fn label_lookup_checks_the_prefix() {
    assert_eq!(app_id_from_label("app-a1"), Ok("a1".to_string()));
    assert_eq!(
        app_id_from_label("sidebar"),
        Err("Not an app webview: sidebar".to_string())
    );
    let state = sample_state();
    assert_eq!(
        check_app_media_permissions(&state, "app-a1"),
        Ok(AppPermissions::default())
    );
    assert_eq!(
        check_app_media_permissions(&state, "app-zz"),
        Err("App 'zz' not found".to_string())
    );
}

#[test]
fn request_decisions() {
    let (ask, allow, block) = (PermissionState::Ask, PermissionState::Allow, PermissionState::Block);
    assert_eq!(media_request_decision(false, false, allow, allow), MediaDecision::Deny);
    assert_eq!(media_request_decision(true, true, block, allow), MediaDecision::Deny);
    assert_eq!(media_request_decision(true, false, allow, block), MediaDecision::Allow);
    assert_eq!(media_request_decision(true, true, allow, ask), MediaDecision::Prompt);
    assert_eq!(media_request_decision(false, true, block, ask), MediaDecision::Prompt);
}

#[test]
fn prompt_waits_then_answer_settles_it() {
    let mut state = sample_state();
    assert_eq!(handle_media_request(&mut state, "s1", "a1", true, true), (MediaDecision::Prompt, None));
    // A second request while one waits supersedes it; the first is handed back to be denied.
    assert_eq!(
        handle_media_request(&mut state, "s1", "a1", true, false),
        (
            MediaDecision::Prompt,
            Some(PendingMediaRequest { wants_camera: true, wants_microphone: true })
        )
    );
    assert_eq!(state.pending_media_requests.len(), 1);
    assert_eq!(
        state.pending_media_requests[0].1,
        PendingMediaRequest { wants_camera: true, wants_microphone: false }
    );
    let (p, settled) =
        respond_media_permission(&mut state, "s1", "a1", Some(PermissionState::Allow), None).unwrap();
    assert_eq!(p.camera, PermissionState::Allow);
    assert_eq!(settled, Some(true));
    assert!(state.pending_media_requests.is_empty());
    // Now the camera is allowed outright.
    assert_eq!(handle_media_request(&mut state, "s1", "a1", true, false), (MediaDecision::Allow, None));
    // Unknown apps are denied.
    assert_eq!(handle_media_request(&mut state, "s1", "zz", true, false), (MediaDecision::Deny, None));
}

#[test]
fn capture_flags_and_cleanup() {
    let mut state = sample_state();
    update_capture_state(&mut state, "a1", "camera", true);
    update_capture_state(&mut state, "a1", "microphone", true);
    update_capture_state(&mut state, "a1", "camera", false);
    assert_eq!(state.active_captures.len(), 1);
    assert!(!state.active_captures[0].1.camera);
    assert!(state.active_captures[0].1.microphone);
    assert_eq!(handle_media_request(&mut state, "s1", "a1", false, true), (MediaDecision::Prompt, None));
    assert!(cleanup_media_state(&mut state, "a1"));
    assert!(state.active_captures.is_empty());
    assert!(!cleanup_media_state(&mut state, "a1"));
}
