//! App webviews: which app is shown, which webviews are live or asleep, and
//! what a new app webview is built with. The webviews themselves are the
//! caller's part; these functions keep the state and decide.
use vstd::prelude::*;
use crate::links::{
    build_link_interceptor_js, build_window_open_override_js, domain_literal, host_of,
    json_string_literal, opt_text, popup_opens_in_app, psl_domain, registrable_domain, url_host,
    blank_popup_in_app, LINK_INTERCEPTOR_HEAD, LINK_INTERCEPTOR_MID, LINK_INTERCEPTOR_TAIL,
    OPEN_OVERRIDE_HEAD, OPEN_OVERRIDE_MID, OPEN_OVERRIDE_TAIL,
};
use crate::models::{AppConfig, IsolationMode, SpaceConfig};
use crate::permissions::{app_anywhere, app_at, cleanup_media_state, find_app_anywhere, locate_app, lookup_error};
use crate::state::{
    AppState, app_not_found, app_not_found_msg, find_key, insert_text, lookup,
    remove_key, remove_text, set_key,
};
use crate::storage::{config_dir_under, data_dir_path, webview_data_dir};
use crate::text::str_eq;

verus! {

broadcast use vstd::string::group_string_axioms;

/// The label of app `app_id`'s webview: `app-<app_id>`.
pub open spec fn webview_label(app_id: Seq<char>) -> Seq<char> {
    "app-"@ + app_id
}

/// The label of app `app_id`'s webview.
pub fn label_for(app_id: &str) -> (r: String)
    ensures
        r@ == webview_label(app_id@),
{
    let mut s = String::from_str("app-");
    s.append(app_id);
    s
}

/// Whether an app uses a web context of its own: where its space isolates
/// every app or the app asks for it.
pub open spec fn uses_own_context(space: SpaceConfig, app: AppConfig) -> bool {
    space.space.isolation == IsolationMode::PerApp || app.isolation_override
}

/// The directory of the web context that app `app` of space `space` uses
/// under the configuration directory `config`.
pub open spec fn context_dir(config: Seq<char>, space: SpaceConfig, app: AppConfig) -> Seq<char> {
    data_dir_path(
        config,
        space.space.id@,
        if uses_own_context(space, app) {
            Some(app.id@)
        } else {
            None
        },
    )
}

/// Law: the apps of a space share one web context unless the space
/// isolates its apps or an app asks for its own; apps with their own
/// contexts, with different relative ids, never share one.
pub proof fn law_session_isolation(config: Seq<char>, space: SpaceConfig, a: AppConfig, b: AppConfig)
    ensures
        !uses_own_context(space, a) && !uses_own_context(space, b) ==> context_dir(config, space, a)
            == context_dir(config, space, b),
        uses_own_context(space, a) && uses_own_context(space, b) && a.id@ != b.id@ && (a.id@.len()
            == 0 || a.id@[0] != '/') && (b.id@.len() == 0 || b.id@[0] != '/') ==> context_dir(
            config,
            space,
            a,
        ) != context_dir(config, space, b),
{
    let base = data_dir_path(config, space.space.id@, None);
    if uses_own_context(space, a) && uses_own_context(space, b) && a.id@ != b.id@ && (a.id@.len() == 0
        || a.id@[0] != '/') && (b.id@.len() == 0 || b.id@[0] != '/') {
        let pa = crate::storage::path_join(base, a.id@);
        let pb = crate::storage::path_join(base, b.id@);
        if pa == pb {
            let pre = if base.len() == 0 || base.last() == '/' {
                base
            } else {
                base + seq!['/']
            };
            assert(pa == pre + a.id@);
            assert(pb == pre + b.id@);
            assert(a.id@ =~= pa.skip(pre.len() as int));
            assert(b.id@ =~= pb.skip(pre.len() as int));
        }
    }
}

/// The data directory of app `app`'s web context in space `space`: its own
/// where it uses one, else the space's; an error where the system has no
/// configuration directory.
pub fn resolve_data_directory(space: &SpaceConfig, app: &AppConfig) -> (r: Result<String, String>)
    ensures
        match r {
            Ok(p) => exists|b: Seq<char>|
                p@ == data_dir_path(
                    config_dir_under(b),
                    space.space.id@,
                    if uses_own_context(*space, *app) {
                        Some(app.id@)
                    } else {
                        None
                    },
                ),
            Err(e) => e@ == "Config directory not found"@,
        },
{
    let per_app = space.space.isolation == IsolationMode::PerApp || app.isolation_override;
    let dir = if per_app {
        webview_data_dir(space.space.id.as_str(), Some(app.id.as_str()))
    } else {
        webview_data_dir(space.space.id.as_str(), None)
    };
    match dir {
        Ok(p) => Ok(p),
        Err(e) => Err(e.message()),
    }
}

/// Everything a new app webview is built with.
pub struct AppWebviewPlan {
    /// The webview's label, `app-<id>`.
    pub label: String,
    /// The address it loads.
    pub url: String,
    /// The directory of its web context.
    pub data_dir: String,
    /// Its left edge: right of the sidebar where the sidebar is shown.
    pub sidebar_x: u32,
    /// The host of the app's address.
    pub base_host: Option<String>,
    /// The registrable domain of that host.
    pub base_domain: Option<String>,
    /// The click interceptor, run when a page has loaded.
    pub link_interceptor_js: String,
    /// The `window.open` override, run when a page starts loading.
    pub window_open_override_js: String,
}

/// The registrable domain of the host of `url`.
pub open spec fn url_domain(url: Seq<char>) -> Option<Seq<char>> {
    match url_host(url) {
        Some(h) => psl_domain(h),
        None => None,
    }
}

/// What the webview of app `app_id` of space `space_id` is built with; an
/// error where there is no such space or app, or no configuration
/// directory.
pub fn ensure_app_open(state: &AppState, space_id: &str, app_id: &str) -> (r: Result<AppWebviewPlan, String>)
    ensures
        match app_at(state.spaces@, space_id@, app_id@) {
            None => r matches Err(e) && e@ == lookup_error(state.spaces@, space_id@, app_id@),
            Some((k, j)) => {
                let space = state.spaces@[k];
                let app = space.apps@[j];
                match r {
                    Ok(p) => {
                        &&& p.label@ == webview_label(app.id@)
                        &&& p.url == app.url
                        &&& exists|b: Seq<char>|
                            p.data_dir@ == data_dir_path(
                                config_dir_under(b),
                                space.space.id@,
                                if uses_own_context(space, app) {
                                    Some(app.id@)
                                } else {
                                    None
                                },
                            )
                        &&& p.sidebar_x == if state.sidebar_visible {
                            state.global_config.general.sidebar_width
                        } else {
                            0
                        }
                        &&& opt_text(p.base_host) == url_host(app.url@)
                        &&& opt_text(p.base_domain) == url_domain(app.url@)
                        &&& p.link_interceptor_js@ == LINK_INTERCEPTOR_HEAD@ + json_string_literal(app.id@)
                            + LINK_INTERCEPTOR_MID@ + domain_literal(url_domain(app.url@))
                            + LINK_INTERCEPTOR_TAIL@
                        &&& p.window_open_override_js@ == OPEN_OVERRIDE_HEAD@ + json_string_literal(
                            app.id@,
                        ) + OPEN_OVERRIDE_MID@ + domain_literal(url_domain(app.url@))
                            + OPEN_OVERRIDE_TAIL@
                    },
                    Err(e) => e@ == "Config directory not found"@,
                }
            },
        },
{
    let (k, j) = match locate_app(&state.spaces, space_id, app_id) {
        Ok(at) => at,
        Err(e) => {
            return Err(e);
        },
    };
    let space = &state.spaces[k];
    let app = &space.apps[j];
    let label = label_for(app.id.as_str());
    let data_dir = match resolve_data_directory(space, app) {
        Ok(d) => d,
        Err(e) => {
            return Err(e);
        },
    };
    let sidebar_x = if state.sidebar_visible {
        state.global_config.general.sidebar_width
    } else {
        0
    };
    let base_host = host_of(app.url.as_str());
    let base_domain: Option<String> = match &base_host {
        Some(h) => match registrable_domain(h.as_str()) {
            Some(d) => Some(String::from_str(d)),
            None => None,
        },
        None => None,
    };
    let link_js = match &base_domain {
        Some(d) => build_link_interceptor_js(app.id.as_str(), Some(d.as_str())),
        None => build_link_interceptor_js(app.id.as_str(), None),
    };
    let open_js = match &base_domain {
        Some(d) => build_window_open_override_js(app.id.as_str(), Some(d.as_str())),
        None => build_window_open_override_js(app.id.as_str(), None),
    };
    Ok(
        AppWebviewPlan {
            label,
            url: app.url.clone(),
            data_dir,
            sidebar_x,
            base_host,
            base_domain,
            link_interceptor_js: link_js,
            window_open_override_js: open_js,
        },
    )
}

/// The webview bookkeeping other than the live labels and the slept apps
/// is as in `other`, and so are the configuration and the spaces.
pub open spec fn same_but_webviews(a: &AppState, b: &AppState) -> bool {
    &&& a.global_config == b.global_config
    &&& a.spaces == b.spaces
    &&& a.active_space_id == b.active_space_id
    &&& a.sidebar_visible == b.sidebar_visible
    &&& a.context_menu_target == b.context_menu_target
    &&& a.space_context_menu_target == b.space_context_menu_target
}

/// Wakes app `app_id` from sleep and says whether its webview is live: then
/// the caller switches to it, else it builds it (see [`ensure_app_open`]).
pub fn open_app(state: &mut AppState, app_id: &str) -> (r: bool)
    requires
        old(state).wf(),
    ensures
        final(state).wf(),
        r == old(state).label_of(app_id@) is Some,
        forall|x: Seq<char>| #[trigger]
            final(state).is_slept(x) == (x != app_id@ && old(state).is_slept(x)),
        final(state).webview_labels == old(state).webview_labels,
        final(state).active_app_id == old(state).active_app_id,
        final(state).active_captures == old(state).active_captures,
        final(state).pending_media_requests == old(state).pending_media_requests,
        same_but_webviews(final(state), old(state)),
{
    let _ = remove_text(&mut state.slept_apps, app_id);
    match find_key(&state.webview_labels, app_id) {
        Some(_) => true,
        None => false,
    }
}

/// Records the newly built webview `label` of app `app_id` and makes the app
/// the active one.
pub fn register_app_webview(state: &mut AppState, app_id: &str, label: String)
    requires
        old(state).wf(),
    ensures
        final(state).wf(),
        forall|x: Seq<char>| #[trigger]
            final(state).label_of(x) == if x == app_id@ {
                Some(label@)
            } else {
                old(state).label_of(x)
            },
        final(state).active_app() == Some(app_id@),
        final(state).slept_apps == old(state).slept_apps,
        final(state).active_captures == old(state).active_captures,
        final(state).pending_media_requests == old(state).pending_media_requests,
        same_but_webviews(final(state), old(state)),
{
    let ghost lv = label@;
    set_key(&mut state.webview_labels, String::from_str(app_id), label);
    state.active_app_id = Some(String::from_str(app_id));
    proof {
        assert forall|x: Seq<char>| #[trigger]
            state.label_of(x) == if x == app_id@ {
                Some(lv)
            } else {
                old(state).label_of(x)
            } by {
            assert(lookup(state.webview_labels@, x) == if x == app_id@ {
                Some(label)
            } else {
                lookup(old(state).webview_labels@, x)
            });
        }
    }
}

/// Makes app `app_id` the active one and returns the label of its live
/// webview, which the caller shows (after hiding the others).
pub fn switch_to_app(state: &mut AppState, app_id: &str) -> (r: Option<String>)
    ensures
        opt_text(r) == old(state).label_of(app_id@),
        final(state).active_app() == Some(app_id@),
        final(state).webview_labels == old(state).webview_labels,
        final(state).slept_apps == old(state).slept_apps,
        final(state).active_captures == old(state).active_captures,
        final(state).pending_media_requests == old(state).pending_media_requests,
        same_but_webviews(final(state), old(state)),
{
    state.active_app_id = Some(String::from_str(app_id));
    match find_key(&state.webview_labels, app_id) {
        Some(i) => Some(state.webview_labels[i].1.clone()),
        None => None,
    }
}

/// Where the active app's webview goes: its label and its left edge, right
/// of the sidebar where the sidebar is shown; `None` where no app is active
/// or the active app has no live webview.
pub fn reposition_app_webviews(state: &AppState) -> (r: Option<(String, u32)>)
    ensures
        match state.active_app() {
            None => r is None,
            Some(id) => match state.label_of(id) {
                None => r is None,
                Some(l) => r matches Some((label, x)) && label@ == l && x == if state.sidebar_visible {
                    state.global_config.general.sidebar_width
                } else {
                    0
                },
            },
        },
{
    let id = match &state.active_app_id {
        Some(a) => a,
        None => {
            return None;
        },
    };
    let label = match find_key(&state.webview_labels, id.as_str()) {
        Some(i) => state.webview_labels[i].1.clone(),
        None => {
            return None;
        },
    };
    let x = if state.sidebar_visible {
        state.global_config.general.sidebar_width
    } else {
        0
    };
    Some((label, x))
}

/// What closing or sleeping an app leaves the caller to do.
pub struct Teardown {
    /// The label of the app's webview, to be closed.
    pub label: Option<String>,
    /// Whether the active app was cleared.
    pub active_cleared: bool,
    /// Whether a media request of the app was waiting; the caller denies it.
    pub had_pending: bool,
}

/// Closes app `app_id`: forgets its webview, clears the active app where it
/// was that app, wakes it from sleep and forgets its media bookkeeping.
pub fn close_app(state: &mut AppState, app_id: &str) -> (r: Teardown)
    requires
        old(state).wf(),
    ensures
        final(state).wf(),
        opt_text(r.label) == old(state).label_of(app_id@),
        r.active_cleared == (old(state).active_app() == Some(app_id@)),
        r.had_pending == old(state).pending_of(app_id@) is Some,
        forall|x: Seq<char>| #[trigger]
            final(state).label_of(x) == if x == app_id@ {
                None
            } else {
                old(state).label_of(x)
            },
        final(state).active_app() == if r.active_cleared {
            None
        } else {
            old(state).active_app()
        },
        forall|x: Seq<char>| #[trigger]
            final(state).is_slept(x) == (x != app_id@ && old(state).is_slept(x)),
        forall|x: Seq<char>| #[trigger]
            final(state).pending_of(x) == if x == app_id@ {
                None
            } else {
                old(state).pending_of(x)
            },
        forall|x: Seq<char>| #[trigger]
            final(state).captures_of(x) == if x == app_id@ {
                None
            } else {
                old(state).captures_of(x)
            },
        same_but_webviews(final(state), old(state)),
{
    let removed = remove_key(&mut state.webview_labels, app_id);
    let label = match removed {
        Some((_, l)) => Some(l),
        None => None,
    };
    let active_cleared = match &state.active_app_id {
        Some(a) => str_eq(a.as_str(), app_id),
        None => false,
    };
    if active_cleared {
        state.active_app_id = None;
    }
    let _ = remove_text(&mut state.slept_apps, app_id);
    let had_pending = cleanup_media_state(state, app_id);
    proof {
        assert forall|x: Seq<char>| #[trigger]
            state.label_of(x) == if x == app_id@ {
                None
            } else {
                old(state).label_of(x)
            } by {
            assert(lookup(state.webview_labels@, x) == if x == app_id@ {
                None
            } else {
                lookup(old(state).webview_labels@, x)
            });
        }
    }
    Teardown { label, active_cleared, had_pending }
}

/// Puts app `app_id` to sleep: forgets its webview (which the caller
/// destroys to free memory), marks it asleep and forgets its media
/// bookkeeping. The active app stays as it is.
pub fn sleep_app_inner(state: &mut AppState, app_id: &str) -> (r: Teardown)
    requires
        old(state).wf(),
    ensures
        final(state).wf(),
        opt_text(r.label) == old(state).label_of(app_id@),
        !r.active_cleared,
        r.had_pending == old(state).pending_of(app_id@) is Some,
        forall|x: Seq<char>| #[trigger]
            final(state).label_of(x) == if x == app_id@ {
                None
            } else {
                old(state).label_of(x)
            },
        final(state).active_app_id == old(state).active_app_id,
        forall|x: Seq<char>| #[trigger]
            final(state).is_slept(x) == (x == app_id@ || old(state).is_slept(x)),
        forall|x: Seq<char>| #[trigger]
            final(state).pending_of(x) == if x == app_id@ {
                None
            } else {
                old(state).pending_of(x)
            },
        forall|x: Seq<char>| #[trigger]
            final(state).captures_of(x) == if x == app_id@ {
                None
            } else {
                old(state).captures_of(x)
            },
        same_but_webviews(final(state), old(state)),
{
    let removed = remove_key(&mut state.webview_labels, app_id);
    let label = match removed {
        Some((_, l)) => Some(l),
        None => None,
    };
    insert_text(&mut state.slept_apps, String::from_str(app_id));
    let had_pending = cleanup_media_state(state, app_id);
    proof {
        assert forall|x: Seq<char>| #[trigger]
            state.label_of(x) == if x == app_id@ {
                None
            } else {
                old(state).label_of(x)
            } by {
            assert(lookup(state.webview_labels@, x) == if x == app_id@ {
                None
            } else {
                lookup(old(state).webview_labels@, x)
            });
        }
    }
    Teardown { label, active_cleared: false, had_pending }
}

/// Clears the active app (after the caller hid every app webview).
pub fn hide_all_app_webviews(state: &mut AppState)
    ensures
        final(state).active_app_id is None,
        final(state).webview_labels == old(state).webview_labels,
        final(state).slept_apps == old(state).slept_apps,
        final(state).active_captures == old(state).active_captures,
        final(state).pending_media_requests == old(state).pending_media_requests,
        same_but_webviews(final(state), old(state)),
{
    state.active_app_id = None;
}

/// The active app's id.
pub fn get_active_app(state: &AppState) -> (r: Option<String>)
    ensures
        r == state.active_app_id,
{
    match &state.active_app_id {
        Some(a) => Some(a.clone()),
        None => None,
    }
}

/// Shows or hides the sidebar, whichever it is not, in the state and in the
/// configuration (saving it is the caller's part). Returns whether it is
/// now shown.
pub fn toggle_sidebar_inner(state: &mut AppState) -> (r: bool)
    ensures
        r == !old(state).sidebar_visible,
        final(state).sidebar_visible == r,
        final(state).global_config.general.sidebar_visible == r,
        final(state).global_config.general.sidebar_width == old(state).global_config.general.sidebar_width,
        final(state).global_config.general.theme == old(state).global_config.general.theme,
        final(state).global_config.general.sleep_timeout_mins == old(
            state,
        ).global_config.general.sleep_timeout_mins,
        final(state).global_config.general.space_order == old(state).global_config.general.space_order,
        final(state).spaces == old(state).spaces,
        final(state).active_space_id == old(state).active_space_id,
        final(state).active_app_id == old(state).active_app_id,
        final(state).webview_labels == old(state).webview_labels,
        final(state).context_menu_target == old(state).context_menu_target,
        final(state).space_context_menu_target == old(state).space_context_menu_target,
        final(state).slept_apps == old(state).slept_apps,
        final(state).active_captures == old(state).active_captures,
        final(state).pending_media_requests == old(state).pending_media_requests,
{
    let visible = !state.sidebar_visible;
    state.sidebar_visible = visible;
    state.global_config.general.sidebar_visible = visible;
    visible
}

/// The apps that are asleep.
pub fn get_slept_apps(state: &AppState) -> (r: Vec<String>)
    ensures
        r@ == state.slept_apps@,
{
    crate::models::clone_strings(&state.slept_apps)
}

/// The label of the active app's live webview; an error where no app is
/// active (`No active app`) or it has no live webview (`Webview not found`).
pub fn active_webview_label(state: &AppState) -> (r: Result<String, String>)
    ensures
        match state.active_app() {
            None => r matches Err(e) && e@ == "No active app"@,
            Some(id) => match state.label_of(id) {
                None => r matches Err(e) && e@ == "Webview not found"@,
                Some(l) => r matches Ok(label) && label@ == l,
            },
        },
{
    let id = match &state.active_app_id {
        Some(a) => a,
        None => {
            return Err(String::from_str("No active app"));
        },
    };
    webview_label_of(state, id.as_str())
}

/// The label of app `app_id`'s live webview; an error (`Webview not found`)
/// where it has none.
pub fn webview_label_of(state: &AppState, app_id: &str) -> (r: Result<String, String>)
    ensures
        match state.label_of(app_id@) {
            None => r matches Err(e) && e@ == "Webview not found"@,
            Some(l) => r matches Ok(label) && label@ == l,
        },
{
    match find_key(&state.webview_labels, app_id) {
        Some(i) => Ok(state.webview_labels[i].1.clone()),
        None => Err(String::from_str("Webview not found")),
    }
}

/// Records app `app_id` of space `space_id` as the target of the app
/// context menu.
pub fn target_app_menu(state: &mut AppState, space_id: String, app_id: String)
    ensures
        final(state).context_menu_target == Some((space_id, app_id)),
        final(state).global_config == old(state).global_config,
        final(state).spaces == old(state).spaces,
        final(state).active_space_id == old(state).active_space_id,
        final(state).active_app_id == old(state).active_app_id,
        final(state).sidebar_visible == old(state).sidebar_visible,
        final(state).webview_labels == old(state).webview_labels,
        final(state).space_context_menu_target == old(state).space_context_menu_target,
        final(state).slept_apps == old(state).slept_apps,
        final(state).active_captures == old(state).active_captures,
        final(state).pending_media_requests == old(state).pending_media_requests,
{
    state.context_menu_target = Some((space_id, app_id));
}

/// How a page's blank-first popup of app `app_id` opens: `None` in the
/// system browser, else in an in-app popup with the app's data directory.
/// An error where no space holds the app, the address does not parse, or
/// there is no configuration directory.
pub fn open_blank_popup(state: &AppState, app_id: &str, url: &str) -> (r: Result<Option<String>, String>)
    ensures
        match app_anywhere(state.spaces@, app_id@) {
            None => r matches Err(e) && e@ == app_not_found_msg(app_id@),
            Some((k, j)) => {
                let space = state.spaces@[k];
                let app = space.apps@[j];
                match blank_popup_in_app(app.url@, url@) {
                    Err(m) => r matches Err(e) && e@ == m,
                    Ok(false) => r matches Ok(None),
                    Ok(true) => match r {
                        Ok(Some(d)) => exists|b: Seq<char>|
                            d@ == data_dir_path(
                                config_dir_under(b),
                                space.space.id@,
                                if uses_own_context(space, app) {
                                    Some(app.id@)
                                } else {
                                    None
                                },
                            ),
                        Ok(None) => false,
                        Err(e) => e@ == "Config directory not found"@,
                    },
                }
            },
        },
{
    let (k, j) = match find_app_anywhere(&state.spaces, app_id) {
        Some(at) => at,
        None => {
            return Err(app_not_found(app_id));
        },
    };
    let space = &state.spaces[k];
    let app = &space.apps[j];
    let in_app = match popup_opens_in_app(app.url.as_str(), url) {
        Ok(b) => b,
        Err(e) => {
            return Err(e);
        },
    };
    if !in_app {
        return Ok(None);
    }
    match resolve_data_directory(space, app) {
        Ok(d) => Ok(Some(d)),
        Err(e) => Err(e),
    }
}

/// `s` without its trailing `c` characters (`str::trim_end_matches`).
pub open spec fn trim_end_char(s: Seq<char>, c: char) -> Seq<char>
    decreases s.len(),
{
    if s.len() > 0 && s.last() == c {
        trim_end_char(s.drop_last(), c)
    } else {
        s
    }
}

/// The unread count a page shows in its title, as in `Inbox (3)` or
/// `Chat (99+)`: the number between the first `(` and the next `)`, with
/// trailing `+` signs dropped; 0 where there is no such number.
pub open spec fn badge_count(title: Seq<char>) -> nat {
    match crate::text::find(title, seq!['(']) {
        None => 0,
        Some(st) => match crate::text::find(title.skip(st), seq![')']) {
            None => 0,
            Some(end) => match crate::numbers::parse_unsigned(
                trim_end_char(title.subrange(st + 1, st + end), '+'),
                u32::MAX as nat,
            ) {
                Some(n) => n,
                None => 0,
            },
        },
    }
}

/// The unread count in a page title (see [`badge_count`]).
pub fn parse_badge_count(title: &str) -> (r: u32)
    ensures
        r == badge_count(title@),
{
    let t = crate::text::to_chars(title);
    let open = vec!['('];
    let close = vec![')'];
    assert(open@ =~= seq!['(']);
    assert(close@ =~= seq![')']);
    let start = match crate::text::find_exec(t.as_slice(), open.as_slice()) {
        Some(k) => k,
        None => {
            return 0;
        },
    };
    proof {
        crate::text::lemma_find_from_first(title@, seq!['('], 0);
    }
    let rest = crate::text::slice_to_vec(t.as_slice(), start, t.len());
    assert(rest@ =~= title@.skip(start as int));
    let end = match crate::text::find_exec(rest.as_slice(), close.as_slice()) {
        Some(k) => k,
        None => {
            return 0;
        },
    };
    proof {
        crate::text::lemma_find_from_first(rest@, seq![')'], 0);
        assert(rest@.subrange(end as int, end + 1)[0] == ')');
        assert(rest@[0] == '(') by {
            assert(title@.subrange(start as int, start + 1)[0] == '(');
        }
    }
    let mut n = start + end;
    let ghost inner = title@.subrange(start + 1, (start + end) as int);
    while n > start + 1 && t[n - 1] == '+'
        invariant
            start + 1 <= n <= start + end,
            start + end <= t.len(),
            t@ == title@,
            trim_end_char(inner, '+') == trim_end_char(title@.subrange(start + 1, n as int), '+'),
        decreases n,
    {
        assert(title@.subrange(start + 1, n as int).drop_last() =~= title@.subrange(start + 1, n - 1));
        n = n - 1;
    }
    let cleaned = crate::text::slice_to_vec(t.as_slice(), start + 1, n);
    assert(trim_end_char(title@.subrange(start + 1, n as int), '+') == title@.subrange(start + 1, n as int));
    match crate::numbers::parse_u32(cleaned.as_slice()) {
        Some(v) => v,
        None => 0,
    }
}

/// Law: a webview's label names its app: the app id read from the label of
/// app `id`'s webview is `id`, and a label from which an app id is read is
/// the label of that app's webview.
pub proof fn law_label_names_app(id: Seq<char>, label: Seq<char>)
    ensures
        crate::permissions::app_id_of_label(webview_label(id)) == Some(id),
        crate::permissions::app_id_of_label(label) matches Some(a) ==> label == webview_label(a),
{
    reveal_strlit("app-");
    let l = webview_label(id);
    assert(l.take(4) =~= "app-"@);
    assert(l.skip(4) =~= id);
    if crate::permissions::app_id_of_label(label) is Some {
        assert(label =~= label.take(4) + label.skip(4));
    }
}

proof fn lemma_trim_plus(d: Seq<char>, k: nat)
    requires
        d.len() > 0,
        d.last() != '+',
    ensures
        trim_end_char(d + Seq::new(k, |i: int| '+'), '+') == d,
    decreases k,
{
    let s = d + Seq::new(k, |i: int| '+');
    if k == 0 {
        assert(s =~= d);
    } else {
        assert(s.drop_last() =~= d + Seq::new((k - 1) as nat, |i: int| '+'));
        lemma_trim_plus(d, (k - 1) as nat);
    }
}

/// Law: a title that shows a count in brackets, as in `Inbox (3)` or
/// `Chat (99+)`, gives that count, whatever follows the brackets, where no
/// `(` comes before them.
pub proof fn law_badge_reads_count(prefix: Seq<char>, n: nat, plus: nat, rest: Seq<char>)
    requires
        forall|i: int| 0 <= i < prefix.len() ==> prefix[i] != '(',
        n <= u32::MAX,
    ensures
        badge_count(prefix + seq!['('] + crate::numbers::decimal(n) + Seq::new(plus, |i: int| '+') + seq![')']
            + rest) == n,
{
    let d = crate::numbers::decimal(n);
    let pl = Seq::new(plus, |i: int| '+');
    let title = prefix + seq!['('] + d + pl + seq![')'] + rest;
    crate::numbers::lemma_decimal_digits(n);
    let st = prefix.len() as int;
    assert(title[st] == '(');
    assert forall|j: int| 0 <= j < st implies title[j] != '(' by {
        assert(title[j] == prefix[j]);
    }
    crate::text::lemma_find_single(title, '(', st);
    let t2 = title.skip(st);
    let end: int = (1 + d.len() + plus) as int;
    assert(t2 =~= seq!['('] + d + pl + seq![')'] + rest);
    assert(t2[end] == ')');
    assert forall|j: int| 0 <= j < end implies t2[j] != ')' by {
        if j == 0 {
        } else if j < 1 + d.len() {
            assert(t2[j] == d[j - 1]);
            assert(crate::numbers::is_digit(d[j - 1]));
        } else {
            assert(t2[j] == pl[j - 1 - d.len()]);
        }
    }
    crate::text::lemma_find_single(t2, ')', end);
    assert(title.subrange(st + 1, st + end) =~= d + pl);
    assert(crate::numbers::is_digit(d[d.len() - 1]));
    lemma_trim_plus(d, plus);
    crate::numbers::law_decimal_read_back(n, u32::MAX as nat);
}

} // verus!
