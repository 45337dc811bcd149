use webapps::lifecycle::{general_space, initial_spaces, menu_events, sleep_candidates, MenuEvent};
use webapps::models::{AppConfig, AppPermissions, GlobalConfig, IsolationMode};
use webapps::state::AppState;
use webapps::webviews::{
    reposition_app_webviews, active_webview_label, close_app, get_slept_apps, label_for, open_app,
    parse_badge_count, ensure_app_open, open_blank_popup, register_app_webview, sleep_app_inner,
    switch_to_app, toggle_sidebar_inner, webview_label_of,
};

fn app(id: &str, url: &str) -> AppConfig {
    AppConfig {
        id: id.to_string(),
        name: id.to_string(),
        url: url.to_string(),
        icon: "auto".to_string(),
        isolation_override: false,
        permissions: AppPermissions::default(),
    }
}

fn state() -> AppState {
    let mut g = general_space();
    g.apps.push(app("mail", "https://mail.google.com/inbox"));
    g.apps.push(app("chat", "http://localhost:8080/"));
    AppState::new(GlobalConfig::default(), vec![g])
}

#[test]
fn badge_counts_from_titles() {
    assert_eq!(parse_badge_count("Inbox (3) - Mail"), 3);
    assert_eq!(parse_badge_count("Chat (99+)"), 99);
    assert_eq!(parse_badge_count("(+7)"), 7);
    assert_eq!(parse_badge_count("No count"), 0);
    assert_eq!(parse_badge_count("Broken (x)"), 0);
    assert_eq!(parse_badge_count("Open (5"), 0);
    assert_eq!(parse_badge_count("(4294967296)"), 0);
}

#[test]
fn webview_lifecycle() {
    let mut s = state();
    assert!(!open_app(&mut s, "mail"));
    let plan = ensure_app_open(&s, "general", "mail").unwrap();
    assert_eq!(plan.label, "app-mail");
    assert_eq!(plan.sidebar_x, 100);
    assert_eq!(plan.base_host.as_deref(), Some("mail.google.com"));
    assert_eq!(plan.base_domain.as_deref(), Some("google.com"));
    assert!(plan.link_interceptor_js.contains(r#"var baseDomain = "google.com";"#));
    assert!(plan.data_dir.ends_with("webview-data/space-general"));
    register_app_webview(&mut s, "mail", plan.label.clone());
    assert_eq!(s.active_app_id.as_deref(), Some("mail"));
    assert!(open_app(&mut s, "mail"));
    assert_eq!(reposition_app_webviews(&s), Some(("app-mail".to_string(), 100)));
    assert!(!toggle_sidebar_inner(&mut s));
    assert!(!s.global_config.general.sidebar_visible);
    assert_eq!(reposition_app_webviews(&s), Some(("app-mail".to_string(), 0)));
    let t = sleep_app_inner(&mut s, "mail");
    assert_eq!(t.label.as_deref(), Some("app-mail"));
    assert_eq!(get_slept_apps(&s), vec!["mail".to_string()]);
    assert_eq!(active_webview_label(&s), Err("Webview not found".to_string()));
    assert!(!open_app(&mut s, "mail"));
    assert!(get_slept_apps(&s).is_empty());
    register_app_webview(&mut s, "mail", label_for("mail"));
    assert_eq!(switch_to_app(&mut s, "chat"), None);
    assert_eq!(webview_label_of(&s, "mail"), Ok("app-mail".to_string()));
    s.active_app_id = Some("mail".to_string());
    let t = close_app(&mut s, "mail");
    assert!(t.active_cleared);
    assert_eq!(active_webview_label(&s), Err("No active app".to_string()));
    assert!(s.webview_labels.is_empty());
}

#[test]
fn plans_report_missing_apps() {
    let s = state();
    assert_eq!(ensure_app_open(&s, "zz", "mail").err(), Some("Space 'zz' not found".to_string()));
    assert_eq!(ensure_app_open(&s, "general", "zz").err(), Some("App 'zz' not found".to_string()));
    let local = ensure_app_open(&s, "general", "chat").unwrap();
    assert_eq!(local.base_domain, None);
    assert!(local.link_interceptor_js.contains("var baseDomain = null;"));
}

#[test]
fn blank_popups() {
    let mut s = state();
    s.spaces[0].space.isolation = IsolationMode::PerApp;
    let d = open_blank_popup(&s, "mail", "https://docs.google.com/x").unwrap().unwrap();
    assert!(d.ends_with("webview-data/space-general/mail"));
    assert_eq!(open_blank_popup(&s, "mail", "https://example.org/"), Ok(None));
    assert_eq!(open_blank_popup(&s, "zz", "https://example.org/"), Err("App 'zz' not found".to_string()));
}

#[test]
fn idle_apps_go_to_sleep() {
    let mut s = state();
    register_app_webview(&mut s, "mail", label_for("mail"));
    register_app_webview(&mut s, "chat", label_for("chat"));
    let idle = vec![("mail".to_string(), 900u64), ("chat".to_string(), 5000u64)];
    // chat is active, so only mail (idle past the 15-minute default) sleeps.
    assert_eq!(sleep_candidates(&s, &idle), vec!["mail".to_string()]);
    s.global_config.general.sleep_timeout_mins = 20;
    assert!(sleep_candidates(&s, &idle).is_empty());
    s.global_config.general.sleep_timeout_mins = 0;
    assert!(sleep_candidates(&s, &idle).is_empty());
}

#[test]
fn startup_spaces() {
    let (v, added) = initial_spaces(vec![]);
    assert!(added);
    assert_eq!(v.len(), 1);
    assert_eq!(v[0].space.id, "general");
    let (v, added) = initial_spaces(vec![general_space(), general_space()]);
    assert!(!added);
    assert_eq!(v.len(), 2);
}

#[test]
fn context_menu_events() {
    let mut s = state();
    s.context_menu_target = Some(("general".to_string(), "mail".to_string()));
    s.space_context_menu_target = Some("general".to_string());
    let ev = menu_events(&mut s, "ctx-edit-app");
    assert_eq!(ev.len(), 1);
    match &ev[0] {
        MenuEvent::EditApp { app_id, url, .. } => {
            assert_eq!(app_id, "mail");
            assert_eq!(url, "https://mail.google.com/inbox");
        }
        _ => panic!("expected an edit-app event"),
    }
    assert_eq!(s.context_menu_target, None);
    assert_eq!(s.space_context_menu_target, None);
    s.space_context_menu_target = Some("general".to_string());
    let ev = menu_events(&mut s, "ctx-delete-space");
    assert!(matches!(&ev[0], MenuEvent::DeleteSpace { space_id } if space_id == "general"));
}
