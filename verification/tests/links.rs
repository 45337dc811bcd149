use webapps::links::{
    build_link_interceptor_js, build_window_open_override_js, is_sso_host, js_string_literal,
    navigate_in_place_js, popup_opens_in_app, registrable_domain, route_new_window, WindowRoute,
};

fn same_site(base_host: &str, host: &str) -> bool {
    let base = registrable_domain(base_host);
    match (base, registrable_domain(host)) {
        (Some(b), Some(n)) => b == n,
        _ => false,
    }
}

#[test]
fn registrable_domain_collapses_subdomains() {
    assert_eq!(registrable_domain("docs.google.com"), Some("google.com"));
    assert_eq!(registrable_domain("drive.google.com"), Some("google.com"));
    assert_eq!(registrable_domain("google.com"), Some("google.com"));
}

#[test]
fn registrable_domain_handles_multipart_suffixes() {
    assert_eq!(registrable_domain("www.bbc.co.uk"), Some("bbc.co.uk"));
    assert_eq!(registrable_domain("shop.example.com.au"), Some("example.com.au"));
}

#[test]
fn registrable_domain_none_for_single_label_host() {
    assert_eq!(registrable_domain("localhost"), None);
}

#[test]
fn same_site_keeps_sibling_subdomains_together() {
    assert!(same_site("drive.google.com", "docs.google.com"));
    assert!(same_site("www.bbc.co.uk", "news.bbc.co.uk"));
}

#[test]
fn same_site_rejects_third_parties_and_lookalikes() {
    assert!(!same_site("drive.google.com", "dropbox.com"));
    assert!(!same_site("foo.github.io", "bar.github.io"));
    assert!(!same_site("drive.google.com", "google.com.attacker.com"));
}

#[test]
fn link_interceptor_bakes_in_registrable_domain() {
    let js = build_link_interceptor_js("app-1", Some("google.com"));
    assert!(js.contains(r#"var baseDomain = "google.com";"#));
    assert!(js.contains(r#"var APP_ID = "app-1";"#));
    assert!(js.contains("host.endsWith('.' + baseDomain)"));
}

#[test]
fn link_interceptor_falls_back_to_exact_host_when_no_domain() {
    let js = build_link_interceptor_js("app-1", None);
    assert!(js.contains("var baseDomain = null;"));
    assert!(js.contains("host === baseHostname"));
}

#[test]
fn window_open_override_bakes_in_ids() {
    let js = build_window_open_override_js("app-\"x", Some("google.com"));
    assert!(js.contains(r#"var APP_ID = "app-\"x";"#));
    assert!(js.contains(r#"var BASE_DOMAIN = "google.com";"#));
    assert!(js.contains("__webapps_open_override"));
}

#[test]
fn json_literals_escape_quotes_and_controls() {
    assert_eq!(js_string_literal("a\"b\\c"), "\"a\\\"b\\\\c\"");
    assert_eq!(js_string_literal("x\ny\u{1}"), "\"x\\ny\\u0001\"");
}

#[test]
fn sso_hosts() {
    assert!(is_sso_host("accounts.google.com"));
    assert!(is_sso_host("api.github.com"));
    assert!(is_sso_host("github.com"));
    assert!(!is_sso_host("notgithub.com"));
}

#[test]
fn new_window_routes() {
    let base = Some("drive.google.com");
    let dom = Some("google.com");
    assert_eq!(route_new_window("", base, dom), WindowRoute::Popup);
    assert_eq!(route_new_window("login.microsoftonline.com", base, dom), WindowRoute::Popup);
    assert_eq!(route_new_window("drive.google.com", base, dom), WindowRoute::InPlace);
    assert_eq!(route_new_window("docs.google.com", base, dom), WindowRoute::Popup);
    assert_eq!(route_new_window("example.org", base, dom), WindowRoute::Browser);
}

#[test]
fn navigate_script_escapes_quotes_and_backslashes() {
    assert_eq!(
        navigate_in_place_js("https://a.com/it's\\x"),
        "window.location.href = 'https://a.com/it\\'s\\\\x'"
    );
}

#[test]
fn blank_popups_stay_in_app_for_the_same_site() {
    assert_eq!(popup_opens_in_app("https://drive.google.com/", "https://docs.google.com/d/1"), Ok(true));
    assert_eq!(popup_opens_in_app("https://drive.google.com/", "https://example.org/"), Ok(false));
    assert_eq!(popup_opens_in_app("https://drive.google.com/", "https://github.com/login"), Ok(true));
    assert!(popup_opens_in_app("https://drive.google.com/", "not a url").is_err());
}
