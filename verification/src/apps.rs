//! App commands: adding, removing, editing, reordering and listing the apps
//! of a space.
//!
//! Each command changes the state only; saving the changed space is the
//! caller's part.
use vstd::prelude::*;
use crate::models::{AppConfig, AppPermissions, PermissionState, SpaceConfig, clone_apps, spaces_view};
use crate::spaces::SpaceView;
use crate::state::{AppState, app_pos, find_app, find_space, space_not_found, space_not_found_msg, app_not_found, app_not_found_msg, space_pos, texts};
use crate::text::str_eq;

verus! {

broadcast use vstd::string::group_string_axioms;

/// `c` is a lower-case hexadecimal digit.
pub open spec fn is_lower_hex(c: char) -> bool {
    ('0' <= c && c <= '9') || ('a' <= c && c <= 'f')
}

/// `s` is a UUID in its hyphenated lower-case text form, such as
/// `67e55044-10b1-426f-9247-bb680e5fe0c8`.
pub open spec fn is_uuid_text(s: Seq<char>) -> bool {
    &&& s.len() == 36
    &&& forall|i: int|
        0 <= i < 36 ==> if i == 8 || i == 13 || i == 18 || i == 23 {
            s[i] == '-'
        } else {
            is_lower_hex(#[trigger] s[i])
        }
}

/// A fresh random (version 4) UUID in text form.
///
/// Calls `uuid::Uuid::new_v4` and its `to_string`, which writes the
/// hyphenated lower-case form; which UUID comes out is left open.
#[verifier::external_body]
pub(crate) fn new_uuid_text() -> (r: String)
    ensures
        is_uuid_text(r@),
{
    uuid::Uuid::new_v4().to_string()
}

/// The apps of the space at `k` replaced by `apps`.
pub(crate) fn set_space_apps(spaces: &mut Vec<SpaceConfig>, k: usize, apps: Vec<AppConfig>)
    requires
        k < old(spaces).len(),
    ensures
        spaces_view(final(spaces)@) == spaces_view(old(spaces)@).update(
            k as int,
            (old(spaces)@[k as int].space, apps@),
        ),
{
    let info = spaces[k].space.clone();
    let ghost before = spaces_view(spaces@);
    spaces.set(k, SpaceConfig { space: info, apps });
    proof {
        assert(spaces_view(spaces@) =~= before.update(k as int, (old(spaces)@[k as int].space, apps@)));
    }
}

/// The spaces after `app` has been appended to the apps of space `k`.
pub open spec fn with_app_added(spaces: Seq<SpaceConfig>, k: int, app: AppConfig) -> Seq<SpaceView> {
    spaces_view(spaces).update(k, (spaces[k].space, spaces[k].apps@.push(app)))
}

/// Adds an app with the id `id` to the first space with id `space_id`:
/// named `name`, at `url`, with the given icon or `auto`, without its own
/// data directory and with every permission `Ask`. Returns the app; an
/// error, and nothing changed, where there is no such space.
pub fn add_app_with_id(
    state: &mut AppState,
    space_id: &str,
    id: String,
    name: String,
    url: String,
    icon: Option<String>,
) -> (r: Result<AppConfig, String>)
    ensures
        match space_pos(old(state).spaces@, space_id@) {
            Some(k) => match r {
                Ok(app) => {
                    &&& app.id == id
                    &&& app.name == name
                    &&& app.url == url
                    &&& app.icon@ == (match icon {
                        Some(i) => i@,
                        None => "auto"@,
                    })
                    &&& !app.isolation_override
                    &&& app.permissions.camera == PermissionState::Ask
                    &&& app.permissions.microphone == PermissionState::Ask
                    &&& spaces_view(final(state).spaces@) == with_app_added(old(state).spaces@, k, app)
                    &&& final(state).same_but_spaces(old(state))
                },
                Err(_) => false,
            },
            None => match r {
                Ok(_) => false,
                Err(e) => e@ == space_not_found_msg(space_id@) && *final(state) == *old(state),
            },
        },
{
    let k = match find_space(&state.spaces, space_id) {
        Some(k) => k,
        None => {
            return Err(space_not_found(space_id));
        },
    };
    let icon = match icon {
        Some(i) => i,
        None => String::from_str("auto"),
    };
    let app = AppConfig {
        id,
        name,
        url,
        icon,
        isolation_override: false,
        permissions: AppPermissions { camera: PermissionState::Ask, microphone: PermissionState::Ask },
    };
    let mut apps = clone_apps(&state.spaces[k].apps);
    apps.push(app.clone());
    set_space_apps(&mut state.spaces, k, apps);
    Ok(app)
}

/// Adds an app with a fresh random id to the first space with id
/// `space_id` (see [`add_app_with_id`]). Returns the app; an error, and
/// nothing changed, where there is no such space.
pub fn add_app(
    state: &mut AppState,
    space_id: &str,
    name: String,
    url: String,
    icon: Option<String>,
) -> (r: Result<AppConfig, String>)
    ensures
        match space_pos(old(state).spaces@, space_id@) {
            Some(k) => match r {
                Ok(app) => {
                    &&& is_uuid_text(app.id@)
                    &&& app.name == name
                    &&& app.url == url
                    &&& app.icon@ == (match icon {
                        Some(i) => i@,
                        None => "auto"@,
                    })
                    &&& !app.isolation_override
                    &&& app.permissions.camera == PermissionState::Ask
                    &&& app.permissions.microphone == PermissionState::Ask
                    &&& spaces_view(final(state).spaces@) == with_app_added(old(state).spaces@, k, app)
                    &&& final(state).same_but_spaces(old(state))
                },
                Err(_) => false,
            },
            None => match r {
                Ok(_) => false,
                Err(e) => e@ == space_not_found_msg(space_id@) && *final(state) == *old(state),
            },
        },
{
    let id = new_uuid_text();
    add_app_with_id(state, space_id, id, name, url, icon)
}

/// An app whose id is not `id`.
pub open spec fn other_id(id: Seq<char>) -> spec_fn(AppConfig) -> bool {
    |a: AppConfig| a.id@ != id
}

/// The apps of `apps` other than those with id `id`.
pub open spec fn without_app(apps: Seq<AppConfig>, id: Seq<char>) -> Seq<AppConfig> {
    apps.filter(other_id(id))
}

fn remove_apps_with_id(apps: &Vec<AppConfig>, id: &str) -> (r: Vec<AppConfig>)
    ensures
        r@ == without_app(apps@, id@),
{
    let mut r: Vec<AppConfig> = Vec::new();
    let mut i: usize = 0;
    while i < apps.len()
        invariant
            i <= apps.len(),
            r@ == without_app(apps@.take(i as int), id@),
        decreases apps.len() - i,
    {
        proof {
            reveal(Seq::filter);
        }
        assert(apps@.take(i + 1).drop_last() =~= apps@.take(i as int));
        assert(apps@.take(i + 1).last() == apps@[i as int]);
        if !str_eq(apps[i].id.as_str(), id) {
            r.push(apps[i].clone());
        }
        assert(r@ =~= without_app(apps@.take(i + 1), id@));
        i = i + 1;
    }
    assert(apps@.take(apps.len() as int) =~= apps@);
    r
}

/// Removes every app with id `app_id` from the first space with id
/// `space_id`, and clears the active app where it was that app (deleting
/// the app's data is the caller's part). An error, and nothing changed,
/// where there is no such space.
pub fn remove_app(state: &mut AppState, space_id: &str, app_id: &str) -> (r: Result<(), String>)
    ensures
        match space_pos(old(state).spaces@, space_id@) {
            Some(k) => {
                &&& r is Ok
                &&& spaces_view(final(state).spaces@) == spaces_view(old(state).spaces@).update(
                    k,
                    (old(state).spaces@[k].space, without_app(old(state).spaces@[k].apps@, app_id@)),
                )
                &&& final(state).active_app() == (if old(state).active_app() == Some(app_id@) {
                    None
                } else {
                    old(state).active_app()
                })
                &&& final(state).global_config == old(state).global_config
                &&& final(state).active_space_id == old(state).active_space_id
                &&& final(state).same_bookkeeping(old(state))
            },
            None => match r {
                Ok(_) => false,
                Err(e) => e@ == space_not_found_msg(space_id@) && *final(state) == *old(state),
            },
        },
{
    let k = match find_space(&state.spaces, space_id) {
        Some(k) => k,
        None => {
            return Err(space_not_found(space_id));
        },
    };
    let apps = remove_apps_with_id(&state.spaces[k].apps, app_id);
    set_space_apps(&mut state.spaces, k, apps);
    let is_active = match &state.active_app_id {
        Some(a) => str_eq(a.as_str(), app_id),
        None => false,
    };
    if is_active {
        state.active_app_id = None;
    }
    Ok(())
}

/// App `app` with the given fields replaced.
pub open spec fn edited_app(
    app: AppConfig,
    name: Option<String>,
    url: Option<String>,
    icon: Option<String>,
    isolation_override: Option<bool>,
) -> AppConfig {
    AppConfig {
        id: app.id,
        name: match name {
            Some(n) => n,
            None => app.name,
        },
        url: match url {
            Some(u) => u,
            None => app.url,
        },
        icon: match icon {
            Some(i) => i,
            None => app.icon,
        },
        isolation_override: match isolation_override {
            Some(b) => b,
            None => app.isolation_override,
        },
        permissions: app.permissions,
    }
}

/// Replaces the given fields of the first app with id `app_id` in the first
/// space with id `space_id`, and returns the edited app. An error, and
/// nothing changed, where there is no such space or app.
pub fn edit_app(
    state: &mut AppState,
    space_id: &str,
    app_id: &str,
    name: Option<String>,
    url: Option<String>,
    icon: Option<String>,
    isolation_override: Option<bool>,
) -> (r: Result<AppConfig, String>)
    ensures
        match space_pos(old(state).spaces@, space_id@) {
            Some(k) => match app_pos(old(state).spaces@[k].apps@, app_id@) {
                Some(j) => match r {
                    Ok(app) => {
                        let new_app = edited_app(old(state).spaces@[k].apps@[j], name, url, icon, isolation_override);
                        &&& app == new_app
                        &&& spaces_view(final(state).spaces@) == spaces_view(old(state).spaces@).update(
                            k,
                            (old(state).spaces@[k].space, old(state).spaces@[k].apps@.update(j, new_app)),
                        )
                        &&& final(state).same_but_spaces(old(state))
                    },
                    Err(_) => false,
                },
                None => match r {
                    Ok(_) => false,
                    Err(e) => e@ == app_not_found_msg(app_id@) && *final(state) == *old(state),
                },
            },
            None => match r {
                Ok(_) => false,
                Err(e) => e@ == space_not_found_msg(space_id@) && *final(state) == *old(state),
            },
        },
{
    let k = match find_space(&state.spaces, space_id) {
        Some(k) => k,
        None => {
            return Err(space_not_found(space_id));
        },
    };
    let j = match find_app(&state.spaces[k].apps, app_id) {
        Some(j) => j,
        None => {
            return Err(app_not_found(app_id));
        },
    };
    let mut app = state.spaces[k].apps[j].clone();
    match name {
        Some(n) => {
            app.name = n;
        },
        None => {},
    }
    match url {
        Some(u) => {
            app.url = u;
        },
        None => {},
    }
    match icon {
        Some(i) => {
            app.icon = i;
        },
        None => {},
    }
    match isolation_override {
        Some(b) => {
            app.isolation_override = b;
        },
        None => {},
    }
    let mut apps = clone_apps(&state.spaces[k].apps);
    apps.set(j, app.clone());
    set_space_apps(&mut state.spaces, k, apps);
    Ok(app)
}

/// For each id of `ids` in turn, the first app of `apps` with that id;
/// ids with no app are skipped.
pub open spec fn reordered(apps: Seq<AppConfig>, ids: Seq<Seq<char>>) -> Seq<AppConfig>
    decreases ids.len(),
{
    if ids.len() == 0 {
        seq![]
    } else {
        let r = reordered(apps, ids.drop_last());
        match app_pos(apps, ids.last()) {
            Some(k) => r.push(apps[k]),
            None => r,
        }
    }
}

/// Puts the apps of the first space with id `space_id` in the order of
/// `app_ids` (see [`reordered`]). An error, and nothing changed, where there
/// is no such space.
pub fn reorder_apps(state: &mut AppState, space_id: &str, app_ids: &Vec<String>) -> (r: Result<(), String>)
    ensures
        match space_pos(old(state).spaces@, space_id@) {
            Some(k) => {
                &&& r is Ok
                &&& spaces_view(final(state).spaces@) == spaces_view(old(state).spaces@).update(
                    k,
                    (old(state).spaces@[k].space, reordered(old(state).spaces@[k].apps@, texts(app_ids@))),
                )
                &&& final(state).same_but_spaces(old(state))
            },
            None => match r {
                Ok(_) => false,
                Err(e) => e@ == space_not_found_msg(space_id@) && *final(state) == *old(state),
            },
        },
{
    let k = match find_space(&state.spaces, space_id) {
        Some(k) => k,
        None => {
            return Err(space_not_found(space_id));
        },
    };
    let ghost apps0 = state.spaces@[k as int].apps@;
    let mut result: Vec<AppConfig> = Vec::new();
    let mut i: usize = 0;
    while i < app_ids.len()
        invariant
            i <= app_ids.len(),
            k < state.spaces.len(),
            apps0 == state.spaces@[k as int].apps@,
            result@ == reordered(apps0, texts(app_ids@).take(i as int)),
        decreases app_ids.len() - i,
    {
        assert(texts(app_ids@).take(i + 1).drop_last() =~= texts(app_ids@).take(i as int));
        assert(texts(app_ids@).take(i + 1).last() == app_ids@[i as int]@);
        match find_app(&state.spaces[k].apps, app_ids[i].as_str()) {
            Some(j) => {
                result.push(state.spaces[k].apps[j].clone());
            },
            None => {},
        }
        i = i + 1;
    }
    assert(texts(app_ids@).take(app_ids.len() as int) =~= texts(app_ids@));
    set_space_apps(&mut state.spaces, k, result);
    Ok(())
}

/// A copy of the apps of the first space with id `space_id`; an error where
/// there is no such space.
pub fn get_apps_for_space(state: &AppState, space_id: &str) -> (r: Result<Vec<AppConfig>, String>)
    ensures
        match space_pos(state.spaces@, space_id@) {
            Some(k) => match r {
                Ok(apps) => apps@ == state.spaces@[k].apps@,
                Err(_) => false,
            },
            None => match r {
                Ok(_) => false,
                Err(e) => e@ == space_not_found_msg(space_id@),
            },
        },
{
    match find_space(&state.spaces, space_id) {
        Some(k) => Ok(clone_apps(&state.spaces[k].apps)),
        None => Err(space_not_found(space_id)),
    }
}

/// Law: editing an app stores exactly the fields that were given: each
/// given name, address, icon or isolation choice is the app's afterwards,
/// each field not given keeps its value, and the app's id and permissions
/// never change.
pub proof fn law_edit_stores_given_fields(
    app: AppConfig,
    name: Option<String>,
    url: Option<String>,
    icon: Option<String>,
    isolation_override: Option<bool>,
)
    ensures
        ({
            let e = edited_app(app, name, url, icon, isolation_override);
            &&& e.id == app.id
            &&& e.permissions == app.permissions
            &&& (name matches Some(n) ==> e.name == n) && (name is None ==> e.name == app.name)
            &&& (url matches Some(u) ==> e.url == u) && (url is None ==> e.url == app.url)
            &&& (icon matches Some(i) ==> e.icon == i) && (icon is None ==> e.icon == app.icon)
            &&& (isolation_override matches Some(b) ==> e.isolation_override == b) && (
            isolation_override is None ==> e.isolation_override == app.isolation_override)
        }),
{
}

/// Law: removing an app drops every app with that id and nothing else: no
/// app left has the id, each app left was there before, and every app with
/// another id stays.
pub proof fn law_removed_app_is_gone(apps: Seq<AppConfig>, id: Seq<char>)
    ensures
        forall|i: int| 0 <= i < without_app(apps, id).len() ==> (#[trigger] without_app(apps, id)[i]).id@ != id,
        forall|x: AppConfig| #[trigger] without_app(apps, id).contains(x) ==> apps.contains(x),
        forall|i: int| 0 <= i < apps.len() && apps[i].id@ != id ==> #[trigger] without_app(
            apps,
            id,
        ).contains(apps[i]),
        without_app(apps, id).len() <= apps.len(),
{
    broadcast use vstd::seq_lib::group_filter_ensures;
    assert forall|x: AppConfig| #[trigger] without_app(apps, id).contains(x) implies apps.contains(x) by {
        apps.lemma_filter_contains_rev(other_id(id), x);
    }
}

/// Law: adding an app puts it last in its space, keeps the apps that were
/// there before it in order, and leaves every other space as it was.
pub proof fn law_added_app_is_last(spaces: Seq<SpaceConfig>, k: int, app: AppConfig)
    requires
        0 <= k < spaces.len(),
    ensures
        ({
            let r = with_app_added(spaces, k, app);
            &&& r.len() == spaces.len()
            &&& r[k].0 == spaces[k].space
            &&& r[k].1.len() == spaces[k].apps@.len() + 1
            &&& r[k].1.last() == app
            &&& forall|j: int| 0 <= j < spaces[k].apps@.len() ==> r[k].1[j] == spaces[k].apps@[j]
            &&& forall|i: int| 0 <= i < spaces.len() && i != k ==> r[i] == spaces[i]@
        }),
{
}

/// Law: reordering takes, for each id in turn, an app of the space with
/// that id: every app of the result is one of the space's apps, and where
/// every id names an app of the space, the result holds one app per id, in
/// the order of the ids.
pub proof fn law_reordered_follows_ids(apps: Seq<AppConfig>, ids: Seq<Seq<char>>)
    ensures
        forall|i: int| 0 <= i < reordered(apps, ids).len() ==> apps.contains(#[trigger] reordered(apps, ids)[i]),
        reordered(apps, ids).len() <= ids.len(),
        (forall|i: int| 0 <= i < ids.len() ==> #[trigger] app_pos(apps, ids[i]) is Some) ==> (reordered(
            apps,
            ids,
        ).len() == ids.len() && forall|i: int| 0 <= i < ids.len() ==> (#[trigger] reordered(apps, ids)[i]).id@
            == ids[i]),
    decreases ids.len(),
{
    if ids.len() > 0 {
        let pre = ids.drop_last();
        law_reordered_follows_ids(apps, pre);
        crate::state::lemma_first_index(apps, crate::state::has_app_id(ids.last()));
        let r = reordered(apps, ids);
        let rp = reordered(apps, pre);
        match app_pos(apps, ids.last()) {
            Some(k) => {
                assert(r == rp.push(apps[k]));
                assert forall|i: int| 0 <= i < r.len() implies apps.contains(#[trigger] r[i]) by {
                    if i < rp.len() {
                        assert(r[i] == rp[i]);
                    } else {
                        assert(r[i] == apps[k]);
                    }
                }
            },
            None => {},
        }
        if forall|i: int| 0 <= i < ids.len() ==> #[trigger] app_pos(apps, ids[i]) is Some {
            assert forall|i: int| 0 <= i < pre.len() implies #[trigger] app_pos(apps, pre[i]) is Some by {
                assert(pre[i] == ids[i]);
            }
            assert(app_pos(apps, ids[ids.len() - 1]) is Some);
            assert forall|i: int| 0 <= i < ids.len() implies (#[trigger] r[i]).id@ == ids[i] by {
                if i < pre.len() {
                    assert(pre[i] == ids[i]);
                    assert(r[i] == rp[i]);
                }
            }
        }
    }
}

} // verus!
