//! The application's own decisions around the commands: the spaces it
//! starts with, which idle apps the periodic check puts to sleep, and what a
//! context-menu choice is reported as.
use vstd::prelude::*;
use crate::models::{IsolationMode, SpaceConfig, SpaceInfo};
use crate::permissions::{app_at, locate_app};
use crate::state::{AppState, find_key, find_space, lookup, space_pos, texts};
use crate::text::str_eq;

verus! {

broadcast use vstd::string::group_string_axioms;

/// The default space: `general`, named `General`, with the `folder` icon,
/// the colour `#4a9eff`, shared sessions and no apps.
pub fn general_space() -> (r: SpaceConfig)
    ensures
        r.space.id@ == "general"@,
        r.space.name@ == "General"@,
        r.space.icon@ == "folder"@,
        r.space.color@ == "#4a9eff"@,
        r.space.isolation == IsolationMode::Shared,
        r.apps@.len() == 0,
{
    SpaceConfig {
        space: SpaceInfo {
            id: String::from_str("general"),
            name: String::from_str("General"),
            icon: String::from_str("folder"),
            color: String::from_str("#4a9eff"),
            isolation: IsolationMode::Shared,
        },
        apps: Vec::new(),
    }
}

/// The spaces to start with: the stored ones, or the default space alone
/// where none is stored. The flag says whether the default space was added
/// (the caller then saves it).
pub fn initial_spaces(stored: Vec<SpaceConfig>) -> (r: (Vec<SpaceConfig>, bool))
    ensures
        r.1 == (stored@.len() == 0),
        !r.1 ==> r.0 == stored,
        r.1 ==> r.0@.len() == 1 && r.0@[0].space.id@ == "general"@ && r.0@[0].space.name@
            == "General"@ && r.0@[0].space.icon@ == "folder"@ && r.0@[0].space.color@ == "#4a9eff"@
            && r.0@[0].space.isolation == IsolationMode::Shared && r.0@[0].apps@.len() == 0,
{
    if stored.len() == 0 {
        let mut v = stored;
        v.push(general_space());
        (v, true)
    } else {
        (stored, false)
    }
}

/// The apps whose webviews the periodic check puts to sleep: none where the
/// timeout is 0 minutes; else each app with a live webview, in turn, that is
/// not the active app and was last shown at least the timeout ago.
/// `idle_secs` holds, for each app shown before, the whole seconds since.
pub open spec fn sleep_candidates_of(state: AppState, idle_secs: Seq<(String, u64)>) -> Seq<Seq<char>> {
    let timeout = state.global_config.general.sleep_timeout_mins as int * 60;
    if timeout == 0 {
        seq![]
    } else {
        live_ids(state).filter(sleeps(state, idle_secs, timeout))
    }
}

/// The ids of the apps with a live webview, in order.
pub open spec fn live_ids(state: AppState) -> Seq<Seq<char>> {
    state.webview_labels@.map_values(|e: (String, String)| e.0@)
}

/// An app that is not active and was last shown at least `timeout`
/// seconds ago.
pub open spec fn sleeps(state: AppState, idle_secs: Seq<(String, u64)>, timeout: int) -> spec_fn(
    Seq<char>,
) -> bool {
    |id: Seq<char>|
        state.active_app() != Some(id) && match lookup(idle_secs, id) {
            Some(t) => t >= timeout,
            None => false,
        }
}

/// The apps the periodic check puts to sleep (see [`sleep_candidates_of`]).
pub fn sleep_candidates(state: &AppState, idle_secs: &Vec<(String, u64)>) -> (r: Vec<String>)
    ensures
        texts(r@) == sleep_candidates_of(*state, idle_secs@),
{
    let timeout: u64 = state.global_config.general.sleep_timeout_mins as u64 * 60;
    let mut r: Vec<String> = Vec::new();
    if timeout == 0 {
        return r;
    }
    let ghost ids = live_ids(*state);
    let ghost keep = sleeps(*state, idle_secs@, timeout as int);
    let mut i: usize = 0;
    while i < state.webview_labels.len()
        invariant
            i <= state.webview_labels.len(),
            timeout == state.global_config.general.sleep_timeout_mins as int * 60,
            ids == live_ids(*state),
            keep == sleeps(*state, idle_secs@, timeout as int),
            texts(r@) == ids.take(i as int).filter(keep),
        decreases state.webview_labels.len() - i,
    {
        proof {
            reveal(Seq::filter);
        }
        assert(ids.take(i + 1).drop_last() =~= ids.take(i as int));
        assert(ids.take(i + 1).last() == state.webview_labels@[i as int].0@);
        let id = &state.webview_labels[i].0;
        let is_active = match &state.active_app_id {
            Some(a) => str_eq(a.as_str(), id.as_str()),
            None => false,
        };
        let idle_enough = match find_key(idle_secs, id.as_str()) {
            Some(k) => idle_secs[k].1 >= timeout,
            None => false,
        };
        let ghost before = texts(r@);
        if !is_active && idle_enough {
            r.push(id.clone());
            assert(texts(r@) =~= before.push(id@));
        }
        assert(texts(r@) =~= ids.take(i + 1).filter(keep));
        i = i + 1;
    }
    assert(ids.take(state.webview_labels.len() as int) =~= ids);
    r
}

/// Law: the periodic check never puts the active app to sleep, and every
/// app it picks has a live webview.
pub proof fn law_active_app_never_sleeps(state: AppState, idle_secs: Seq<(String, u64)>, i: int)
    requires
        0 <= i < sleep_candidates_of(state, idle_secs).len(),
    ensures
        state.active_app() != Some(sleep_candidates_of(state, idle_secs)[i]),
        crate::state::key_pos(state.webview_labels@, sleep_candidates_of(state, idle_secs)[i]) is Some,
{
    let timeout = state.global_config.general.sleep_timeout_mins as int * 60;
    let ids = live_ids(state);
    let keep = sleeps(state, idle_secs, timeout);
    assert(timeout != 0);
    ids.lemma_filter_pred(keep, i);
    let id = sleep_candidates_of(state, idle_secs)[i];
    assert(ids.filter(keep).contains(id));
    ids.lemma_filter_contains_rev(keep, id);
    let j = choose|j: int| 0 <= j < ids.len() && ids[j] == id;
    crate::state::lemma_first_index(state.webview_labels@, crate::state::has_key::<String>(id));
    assert(crate::state::has_key::<String>(id)(state.webview_labels@[j]));
}

/// Law: the sleep timeout. With a timeout of 0 minutes no app sleeps;
/// otherwise every app put to sleep was last shown at least the timeout ago,
/// and every app with a live webview that is not active and was last shown
/// at least the timeout ago is put to sleep.
pub proof fn law_sleep_timeout(state: AppState, idle_secs: Seq<(String, u64)>, i: int, id: Seq<char>)
    ensures
        state.global_config.general.sleep_timeout_mins == 0 ==> sleep_candidates_of(state, idle_secs).len()
            == 0,
        0 <= i < sleep_candidates_of(state, idle_secs).len() ==> (lookup(
            idle_secs,
            sleep_candidates_of(state, idle_secs)[i],
        ) matches Some(t) && t >= state.global_config.general.sleep_timeout_mins as int * 60),
        state.global_config.general.sleep_timeout_mins > 0 && live_ids(state).contains(id) && state.active_app()
            != Some(id) && (lookup(idle_secs, id) matches Some(t) && t
            >= state.global_config.general.sleep_timeout_mins as int * 60) ==> sleep_candidates_of(
            state,
            idle_secs,
        ).contains(id),
{
    let timeout = state.global_config.general.sleep_timeout_mins as int * 60;
    let ids = live_ids(state);
    let keep = sleeps(state, idle_secs, timeout);
    if timeout != 0 {
        if 0 <= i < sleep_candidates_of(state, idle_secs).len() {
            ids.lemma_filter_pred(keep, i);
        }
        if ids.contains(id) && keep(id) {
            let j = choose|j: int| 0 <= j < ids.len() && ids[j] == id;
            ids.lemma_filter_contains(keep, j);
        }
    }
}

/// What a context-menu choice is reported as.
pub enum MenuEvent {
    /// Remove app `app_id` of space `space_id`.
    RemoveApp { space_id: String, app_id: String },
    /// Edit app `app_id` of space `space_id`, whose settings are given.
    EditApp { space_id: String, app_id: String, name: String, url: String, icon: String },
    /// Edit space `space_id`, whose settings are given.
    EditSpace { space_id: String, name: String, color: String },
    /// Delete space `space_id`.
    DeleteSpace { space_id: String },
}

/// A [`MenuEvent`] by its characters.
pub enum MenuEventView {
    RemoveApp(Seq<char>, Seq<char>),
    EditApp(Seq<char>, Seq<char>, Seq<char>, Seq<char>, Seq<char>),
    EditSpace(Seq<char>, Seq<char>, Seq<char>),
    DeleteSpace(Seq<char>),
}

impl View for MenuEvent {
    type V = MenuEventView;

    open spec fn view(&self) -> MenuEventView {
        match self {
            MenuEvent::RemoveApp { space_id, app_id } => MenuEventView::RemoveApp(space_id@, app_id@),
            MenuEvent::EditApp { space_id, app_id, name, url, icon } => MenuEventView::EditApp(
                space_id@,
                app_id@,
                name@,
                url@,
                icon@,
            ),
            MenuEvent::EditSpace { space_id, name, color } => MenuEventView::EditSpace(
                space_id@,
                name@,
                color@,
            ),
            MenuEvent::DeleteSpace { space_id } => MenuEventView::DeleteSpace(space_id@),
        }
    }
}

/// What the app context menu's choice `event_id` is reported as, for a
/// right-click on app `app_id` of space `space_id`: `ctx-remove-app` asks
/// to remove the app, `ctx-edit-app` to edit it where it exists.
pub open spec fn app_menu_event(
    spaces: Seq<SpaceConfig>,
    space_id: Seq<char>,
    app_id: Seq<char>,
    event_id: Seq<char>,
) -> Seq<MenuEventView> {
    if event_id == "ctx-remove-app"@ {
        seq![MenuEventView::RemoveApp(space_id, app_id)]
    } else if event_id == "ctx-edit-app"@ {
        match app_at(spaces, space_id, app_id) {
            Some((k, j)) => {
                let app = spaces[k].apps@[j];
                seq![MenuEventView::EditApp(space_id, app_id, app.name@, app.url@, app.icon@)]
            },
            None => seq![],
        }
    } else {
        seq![]
    }
}

/// What the space context menu's choice `event_id` is reported as, for a
/// right-click on space `space_id`: `ctx-edit-space` asks to edit it where
/// it exists, `ctx-delete-space` to delete it.
pub open spec fn space_menu_event(spaces: Seq<SpaceConfig>, space_id: Seq<char>, event_id: Seq<char>) -> Seq<
    MenuEventView,
> {
    if event_id == "ctx-edit-space"@ {
        match space_pos(spaces, space_id) {
            Some(k) => seq![
                MenuEventView::EditSpace(space_id, spaces[k].space.name@, spaces[k].space.color@),
            ],
            None => seq![],
        }
    } else if event_id == "ctx-delete-space"@ {
        seq![MenuEventView::DeleteSpace(space_id)]
    } else {
        seq![]
    }
}

/// What a context-menu choice `event_id` is reported as: the app menu's
/// event for its target, then the space menu's for its target.
pub open spec fn menu_events_of(state: AppState, event_id: Seq<char>) -> Seq<MenuEventView> {
    let app_part = match state.context_menu_target {
        Some((s, a)) => app_menu_event(state.spaces@, s@, a@, event_id),
        None => seq![],
    };
    let space_part = match state.space_context_menu_target {
        Some(s) => space_menu_event(state.spaces@, s@, event_id),
        None => seq![],
    };
    app_part + space_part
}

/// The views of a list of events.
pub open spec fn events_view(v: Seq<MenuEvent>) -> Seq<MenuEventView> {
    v.map_values(|e: MenuEvent| e@)
}

/// Handles the context-menu choice `event_id`: takes both menu targets and
/// returns the events to report (see [`menu_events_of`]).
pub fn menu_events(state: &mut AppState, event_id: &str) -> (r: Vec<MenuEvent>)
    ensures
        events_view(r@) == menu_events_of(*old(state), event_id@),
        final(state).context_menu_target is None,
        final(state).space_context_menu_target is None,
        final(state).global_config == old(state).global_config,
        final(state).spaces == old(state).spaces,
        final(state).active_space_id == old(state).active_space_id,
        final(state).active_app_id == old(state).active_app_id,
        final(state).sidebar_visible == old(state).sidebar_visible,
        final(state).webview_labels == old(state).webview_labels,
        final(state).slept_apps == old(state).slept_apps,
        final(state).active_captures == old(state).active_captures,
        final(state).pending_media_requests == old(state).pending_media_requests,
{
    let mut r: Vec<MenuEvent> = Vec::new();
    let app_target = state.context_menu_target.take();
    match app_target {
        Some((space_id, app_id)) => {
            if str_eq(event_id, "ctx-remove-app") {
                r.push(MenuEvent::RemoveApp { space_id, app_id });
            } else if str_eq(event_id, "ctx-edit-app") {
                match locate_app(&state.spaces, space_id.as_str(), app_id.as_str()) {
                    Ok((k, j)) => {
                        let app = &state.spaces[k].apps[j];
                        let name = app.name.clone();
                        let url = app.url.clone();
                        let icon = app.icon.clone();
                        r.push(MenuEvent::EditApp { space_id, app_id, name, url, icon });
                    },
                    Err(_) => {},
                }
            }
        },
        None => {},
    }
    let ghost after_app = events_view(r@);
    let space_target = state.space_context_menu_target.take();
    match space_target {
        Some(space_id) => {
            if str_eq(event_id, "ctx-edit-space") {
                match find_space(&state.spaces, space_id.as_str()) {
                    Some(k) => {
                        let name = state.spaces[k].space.name.clone();
                        let color = state.spaces[k].space.color.clone();
                        r.push(MenuEvent::EditSpace { space_id, name, color });
                    },
                    None => {},
                }
            } else if str_eq(event_id, "ctx-delete-space") {
                r.push(MenuEvent::DeleteSpace { space_id });
            }
        },
        None => {},
    }
    assert(events_view(r@) =~= menu_events_of(*old(state), event_id@));
    r
}

/// Law: what a context-menu choice asks for. Removing an app asks to remove
/// the right-clicked app; deleting a space asks to delete the right-clicked
/// space; editing asks to edit the right-clicked app or space with its
/// current name (and address and icon, or colour) where it exists; any
/// other choice asks for nothing.
pub proof fn law_menu_events(spaces: Seq<SpaceConfig>, space_id: Seq<char>, app_id: Seq<char>, event_id: Seq<char>)
    ensures
        event_id == "ctx-remove-app"@ ==> app_menu_event(spaces, space_id, app_id, event_id) == seq![
            MenuEventView::RemoveApp(space_id, app_id),
        ],
        event_id == "ctx-delete-space"@ ==> space_menu_event(spaces, space_id, event_id) == seq![
            MenuEventView::DeleteSpace(space_id),
        ],
        event_id == "ctx-edit-app"@ ==> app_menu_event(spaces, space_id, app_id, event_id) == match app_at(
            spaces,
            space_id,
            app_id,
        ) {
            Some((k, j)) => seq![
                MenuEventView::EditApp(
                    space_id,
                    app_id,
                    spaces[k].apps@[j].name@,
                    spaces[k].apps@[j].url@,
                    spaces[k].apps@[j].icon@,
                ),
            ],
            None => seq![],
        },
        event_id == "ctx-edit-space"@ ==> space_menu_event(spaces, space_id, event_id) == match space_pos(
            spaces,
            space_id,
        ) {
            Some(k) => seq![MenuEventView::EditSpace(space_id, spaces[k].space.name@, spaces[k].space.color@)],
            None => seq![],
        },
        event_id != "ctx-remove-app"@ && event_id != "ctx-edit-app"@ ==> app_menu_event(
            spaces,
            space_id,
            app_id,
            event_id,
        ).len() == 0,
        event_id != "ctx-delete-space"@ && event_id != "ctx-edit-space"@ ==> space_menu_event(
            spaces,
            space_id,
            event_id,
        ).len() == 0,
{
    reveal_strlit("ctx-remove-app");
    reveal_strlit("ctx-edit-app");
    reveal_strlit("ctx-delete-space");
    reveal_strlit("ctx-edit-space");
    assert("ctx-remove-app"@.len() != "ctx-edit-app"@.len());
    assert("ctx-delete-space"@.len() != "ctx-edit-space"@.len());
}

} // verus!
