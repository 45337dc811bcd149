//! Camera and microphone permissions: the stored decisions of each app, what
//! a page's capture request is answered, and the bookkeeping of requests
//! that wait for the user and of devices in use.
use vstd::prelude::*;
use crate::apps::set_space_apps;
use crate::models::{AppConfig, AppPermissions, MediaKind, PermissionState, SpaceConfig, clone_apps, spaces_view};
use crate::state::{
    ActiveCaptures, AppState, PendingMediaRequest, app_not_found, app_not_found_msg, app_pos, find_app,
    find_space, first_index, first_index_from, lemma_first_index, lookup, remove_key, set_key,
    space_not_found, space_not_found_msg, space_pos,
};
use crate::text::{from_chars, slice_to_vec, starts_with_exec, str_eq, to_chars};

verus! {

broadcast use vstd::string::group_string_axioms;

/// What a page's camera/microphone request is answered.
#[derive(PartialEq, Eq, Debug, Clone, Copy, Structural)]
pub enum MediaDecision {
    Allow,
    Deny,
    /// Ask the user; the request waits for the answer.
    Prompt,
}

/// The answer to a request for the camera (`wants_camera`) and/or the
/// microphone (`wants_microphone`) given the app's stored decisions: denied
/// where it asks for neither or for a blocked device; allowed where every
/// device it asks for is allowed; otherwise the user is asked.
pub open spec fn request_decision(
    wants_camera: bool,
    wants_microphone: bool,
    camera: PermissionState,
    microphone: PermissionState,
) -> MediaDecision {
    if !wants_camera && !wants_microphone {
        MediaDecision::Deny
    } else if (wants_camera && camera == PermissionState::Block) || (wants_microphone && microphone
        == PermissionState::Block) {
        MediaDecision::Deny
    } else if (!wants_camera || camera == PermissionState::Allow) && (!wants_microphone || microphone
        == PermissionState::Allow) {
        MediaDecision::Allow
    } else {
        MediaDecision::Prompt
    }
}

/// The answer to a capture request given the stored decisions (see
/// [`request_decision`]).
pub fn media_request_decision(
    wants_camera: bool,
    wants_microphone: bool,
    camera: PermissionState,
    microphone: PermissionState,
) -> (r: MediaDecision)
    ensures
        r == request_decision(wants_camera, wants_microphone, camera, microphone),
{
    if !wants_camera && !wants_microphone {
        return MediaDecision::Deny;
    }
    let camera_block = wants_camera && camera == PermissionState::Block;
    let mic_block = wants_microphone && microphone == PermissionState::Block;
    if camera_block || mic_block {
        return MediaDecision::Deny;
    }
    let camera_ok = !wants_camera || camera == PermissionState::Allow;
    let mic_ok = !wants_microphone || microphone == PermissionState::Allow;
    if camera_ok && mic_ok {
        MediaDecision::Allow
    } else {
        MediaDecision::Prompt
    }
}

/// Where app `app_id` of space `space_id` stands: (space index, app index).
pub open spec fn app_at(spaces: Seq<SpaceConfig>, space_id: Seq<char>, app_id: Seq<char>) -> Option<
    (int, int),
> {
    match space_pos(spaces, space_id) {
        Some(k) => match app_pos(spaces[k].apps@, app_id) {
            Some(j) => Some((k, j)),
            None => None,
        },
        None => None,
    }
}

/// The stored permissions of the app at (`k`, `j`).
pub open spec fn perms_at(spaces: Seq<SpaceConfig>, k: int, j: int) -> AppPermissions {
    spaces[k].apps@[j].permissions
}

/// The message for a lookup of space `space_id` and app `app_id` that
/// failed: the space's where it is missing, else the app's.
pub open spec fn lookup_error(spaces: Seq<SpaceConfig>, space_id: Seq<char>, app_id: Seq<char>) -> Seq<
    char,
> {
    if space_pos(spaces, space_id) is None {
        space_not_found_msg(space_id)
    } else {
        app_not_found_msg(app_id)
    }
}

/// Finds app `app_id` of space `space_id`: (space index, app index), or the
/// message of the lookup that failed.
pub fn locate_app(spaces: &Vec<SpaceConfig>, space_id: &str, app_id: &str) -> (r: Result<
    (usize, usize),
    String,
>)
    ensures
        match app_at(spaces@, space_id@, app_id@) {
            Some((k, j)) => r == Ok::<(usize, usize), String>((k as usize, j as usize)) && 0 <= k
                < spaces.len() && 0 <= j < spaces@[k].apps.len(),
            None => match r {
                Ok(_) => false,
                Err(e) => e@ == lookup_error(spaces@, space_id@, app_id@),
            },
        },
        r matches Ok((k, j)) ==> k < spaces.len() && j < spaces@[k as int].apps.len(),
{
    let k = match find_space(spaces, space_id) {
        Some(k) => k,
        None => {
            return Err(space_not_found(space_id));
        },
    };
    match find_app(&spaces[k].apps, app_id) {
        Some(j) => Ok((k, j)),
        None => Err(app_not_found(app_id)),
    }
}

/// The spaces with the permissions of the app at (`k`, `j`) replaced.
pub open spec fn with_perms(spaces: Seq<SpaceConfig>, k: int, j: int, perms: AppPermissions) -> Seq<
    (crate::models::SpaceInfo, Seq<AppConfig>),
> {
    let app = spaces[k].apps@[j];
    spaces_view(spaces).update(
        k,
        (
            spaces[k].space,
            spaces[k].apps@.update(
                j,
                AppConfig {
                    id: app.id,
                    name: app.name,
                    url: app.url,
                    icon: app.icon,
                    isolation_override: app.isolation_override,
                    permissions: perms,
                },
            ),
        ),
    )
}

fn store_perms(spaces: &mut Vec<SpaceConfig>, k: usize, j: usize, perms: AppPermissions)
    requires
        k < old(spaces).len(),
        j < old(spaces)@[k as int].apps.len(),
    ensures
        spaces_view(final(spaces)@) == with_perms(old(spaces)@, k as int, j as int, perms),
{
    let mut app = spaces[k].apps[j].clone();
    app.permissions = perms;
    let mut apps = clone_apps(&spaces[k].apps);
    apps.set(j, app);
    set_space_apps(spaces, k, apps);
}

/// Permissions `p` with the decision for `kind` set to `value`.
pub open spec fn perms_with(p: AppPermissions, kind: MediaKind, value: PermissionState) -> AppPermissions {
    match kind {
        MediaKind::Camera => AppPermissions { camera: value, microphone: p.microphone },
        MediaKind::Microphone => AppPermissions { camera: p.camera, microphone: value },
    }
}

/// Stores `value` as app `app_id`'s decision for `kind` and returns its
/// permissions (saving the space is the caller's part). The decision for the
/// other device stays. An error, and nothing changed, where there is no such
/// space or app.
pub fn set_app_permission(
    state: &mut AppState,
    space_id: &str,
    app_id: &str,
    kind: MediaKind,
    value: PermissionState,
) -> (r: Result<AppPermissions, String>)
    ensures
        match app_at(old(state).spaces@, space_id@, app_id@) {
            Some((k, j)) => match r {
                Ok(p) => {
                    &&& p == perms_with(perms_at(old(state).spaces@, k, j), kind, value)
                    &&& kind == MediaKind::Camera ==> p.microphone == perms_at(old(state).spaces@, k, j).microphone
                    &&& kind == MediaKind::Microphone ==> p.camera == perms_at(old(state).spaces@, k, j).camera
                    &&& spaces_view(final(state).spaces@) == with_perms(old(state).spaces@, k, j, p)
                    &&& final(state).same_but_spaces(old(state))
                },
                Err(_) => false,
            },
            None => match r {
                Ok(_) => false,
                Err(e) => e@ == lookup_error(old(state).spaces@, space_id@, app_id@) && *final(state)
                    == *old(state),
            },
        },
{
    let (k, j) = match locate_app(&state.spaces, space_id, app_id) {
        Ok(at) => at,
        Err(e) => {
            return Err(e);
        },
    };
    let old_perms = state.spaces[k].apps[j].permissions;
    let perms = match kind {
        MediaKind::Camera => AppPermissions { camera: value, microphone: old_perms.microphone },
        MediaKind::Microphone => AppPermissions { camera: old_perms.camera, microphone: value },
    };
    store_perms(&mut state.spaces, k, j, perms);
    Ok(perms)
}

/// The stored permissions of app `app_id` of space `space_id`; an error
/// where there is no such space or app.
pub fn get_app_permissions(state: &AppState, space_id: &str, app_id: &str) -> (r: Result<AppPermissions, String>)
    ensures
        match app_at(state.spaces@, space_id@, app_id@) {
            Some((k, j)) => r == Ok::<AppPermissions, String>(perms_at(state.spaces@, k, j)),
            None => match r {
                Ok(_) => false,
                Err(e) => e@ == lookup_error(state.spaces@, space_id@, app_id@),
            },
        },
{
    match locate_app(&state.spaces, space_id, app_id) {
        Ok((k, j)) => Ok(state.spaces[k].apps[j].permissions),
        Err(e) => Err(e),
    }
}

/// The space holds an app with id `id`.
pub open spec fn holds_app(id: Seq<char>) -> spec_fn(SpaceConfig) -> bool {
    |s: SpaceConfig| app_pos(s.apps@, id) is Some
}

/// Where the app with id `id` stands in the first space that holds one:
/// (space index, app index).
pub open spec fn app_anywhere(spaces: Seq<SpaceConfig>, id: Seq<char>) -> Option<(int, int)> {
    match first_index(spaces, holds_app(id)) {
        Some(k) => Some((k, app_pos(spaces[k].apps@, id).unwrap())),
        None => None,
    }
}

/// Finds the app with id `id` in the first space that holds one.
pub fn find_app_anywhere(spaces: &Vec<SpaceConfig>, id: &str) -> (r: Option<(usize, usize)>)
    ensures
        match app_anywhere(spaces@, id@) {
            Some((k, j)) => r == Some((k as usize, j as usize)) && 0 <= k < spaces.len() && 0 <= j
                < spaces@[k].apps.len(),
            None => r is None,
        },
        r matches Some((k, j)) ==> k < spaces.len() && j < spaces@[k as int].apps.len(),
{
    proof {
        lemma_first_index(spaces@, holds_app(id@));
    }
    let mut i: usize = 0;
    while i < spaces.len()
        invariant
            i <= spaces.len(),
            first_index(spaces@, holds_app(id@)) == first_index_from(spaces@, holds_app(id@), i as int),
        decreases spaces.len() - i,
    {
        match find_app(&spaces[i].apps, id) {
            Some(j) => {
                return Some((i, j));
            },
            None => {},
        }
        i = i + 1;
    }
    None
}

/// The app id of an app webview's label `app-<id>`.
pub open spec fn app_id_of_label(label: Seq<char>) -> Option<Seq<char>> {
    if label.len() >= 4 && label.take(4) == "app-"@ {
        Some(label.skip(4))
    } else {
        None
    }
}

/// `Not an app webview: <label>`.
pub open spec fn not_app_webview_msg(label: Seq<char>) -> Seq<char> {
    "Not an app webview: "@ + label
}

/// The app id of the app webview labelled `label`, or an error where the
/// label is not an app webview's.
pub fn app_id_from_label(label: &str) -> (r: Result<String, String>)
    ensures
        match app_id_of_label(label@) {
            Some(id) => r matches Ok(s) && s@ == id,
            None => r matches Err(e) && e@ == not_app_webview_msg(label@),
        },
{
    proof {
        reveal_strlit("app-");
    }
    let chars = to_chars(label);
    let prefix = to_chars("app-");
    if starts_with_exec(chars.as_slice(), prefix.as_slice()) {
        let rest = slice_to_vec(chars.as_slice(), 4, chars.len());
        assert(rest@ =~= label@.skip(4));
        assert(label@.take(4) =~= "app-"@);
        Ok(from_chars(rest.as_slice()))
    } else {
        assert(label@.len() >= 4 ==> label@.take(4) != "app-"@ ) by {
            if label@.len() >= 4 && label@.take(4) == "app-"@ {
                assert(label@.subrange(0, 4) =~= "app-"@);
            }
        }
        let mut e = String::from_str("Not an app webview: ");
        e.append(label);
        Err(e)
    }
}

/// The stored permissions of the app whose webview is labelled `label`,
/// looked up in every space; an error where the label is not an app
/// webview's or no space holds the app.
pub fn check_app_media_permissions(state: &AppState, label: &str) -> (r: Result<AppPermissions, String>)
    ensures
        match app_id_of_label(label@) {
            None => r matches Err(e) && e@ == not_app_webview_msg(label@),
            Some(id) => match app_anywhere(state.spaces@, id) {
                Some((k, j)) => r == Ok::<AppPermissions, String>(perms_at(state.spaces@, k, j)),
                None => r matches Err(e) && e@ == app_not_found_msg(id),
            },
        },
{
    let app_id = match app_id_from_label(label) {
        Ok(id) => id,
        Err(e) => {
            return Err(e);
        },
    };
    match find_app_anywhere(&state.spaces, app_id.as_str()) {
        Some((k, j)) => Ok(state.spaces[k].apps[j].permissions),
        None => Err(app_not_found(app_id.as_str())),
    }
}

/// The answer to a capture request of app `app_id` of space `space_id` for
/// the camera and/or microphone: denied where the app is unknown, else as the
/// stored permissions decide (see [`request_decision`]).
pub open spec fn request_answer(
    state: AppState,
    space_id: Seq<char>,
    app_id: Seq<char>,
    wants_camera: bool,
    wants_microphone: bool,
) -> MediaDecision {
    match app_at(state.spaces@, space_id, app_id) {
        None => MediaDecision::Deny,
        Some((k, j)) => {
            let p = perms_at(state.spaces@, k, j);
            request_decision(wants_camera, wants_microphone, p.camera, p.microphone)
        },
    }
}

/// Answers a page's capture request of app `app_id` of space `space_id`
/// (see [`request_answer`]). Where the user is to be asked, the request
/// becomes the app's waiting request: it supersedes one that was already
/// waiting, which is handed back for the caller to deny.
pub fn handle_media_request(
    state: &mut AppState,
    space_id: &str,
    app_id: &str,
    wants_camera: bool,
    wants_microphone: bool,
) -> (r: (MediaDecision, Option<PendingMediaRequest>))
    requires
        old(state).wf(),
    ensures
        final(state).wf(),
        r.0 == request_answer(*old(state), space_id@, app_id@, wants_camera, wants_microphone),
        r.1 == if r.0 == MediaDecision::Prompt {
            old(state).pending_of(app_id@)
        } else {
            None
        },
        forall|x: Seq<char>| #[trigger]
            final(state).pending_of(x) == if r.0 == MediaDecision::Prompt && x == app_id@ {
                Some(PendingMediaRequest { wants_camera, wants_microphone })
            } else {
                old(state).pending_of(x)
            },
        final(state).spaces == old(state).spaces,
        final(state).global_config == old(state).global_config,
        final(state).same_but_config_and_spaces_except_pending(old(state)),
{
    if !wants_camera && !wants_microphone {
        return (MediaDecision::Deny, None);
    }
    let (k, j) = match locate_app(&state.spaces, space_id, app_id) {
        Ok(at) => at,
        Err(_) => {
            return (MediaDecision::Deny, None);
        },
    };
    let p = state.spaces[k].apps[j].permissions;
    let d = media_request_decision(wants_camera, wants_microphone, p.camera, p.microphone);
    if d != MediaDecision::Prompt {
        return (d, None);
    }
    let displaced = match crate::state::find_key(&state.pending_media_requests, app_id) {
        Some(i) => {
            proof {
                crate::state::lemma_key_pos_unique(state.pending_media_requests@, i as int);
            }
            Some(state.pending_media_requests[i].1)
        },
        None => None,
    };
    set_key(
        &mut state.pending_media_requests,
        String::from_str(app_id),
        PendingMediaRequest { wants_camera, wants_microphone },
    );
    (MediaDecision::Prompt, displaced)
}

/// Whether a waiting request `p` is allowed by the permissions `perms`:
/// every device it asked for is allowed.
pub open spec fn pending_allowed(p: PendingMediaRequest, perms: AppPermissions) -> bool {
    (!p.wants_camera || perms.camera == PermissionState::Allow) && (!p.wants_microphone
        || perms.microphone == PermissionState::Allow)
}

/// Permissions `p` with the given decisions replaced.
pub open spec fn perms_answered(
    p: AppPermissions,
    camera: Option<PermissionState>,
    microphone: Option<PermissionState>,
) -> AppPermissions {
    AppPermissions {
        camera: match camera {
            Some(c) => c,
            None => p.camera,
        },
        microphone: match microphone {
            Some(m) => m,
            None => p.microphone,
        },
    }
}

/// Stores the user's answer for app `app_id` of space `space_id` (saving
/// the space is the caller's part), and settles the app's waiting request:
/// returns the new permissions and, where a request was waiting, whether it
/// is allowed; the request no longer waits. An error, and nothing changed,
/// where there is no such space or app.
pub fn respond_media_permission(
    state: &mut AppState,
    space_id: &str,
    app_id: &str,
    camera: Option<PermissionState>,
    microphone: Option<PermissionState>,
) -> (r: Result<(AppPermissions, Option<bool>), String>)
    requires
        old(state).wf(),
    ensures
        final(state).wf(),
        match app_at(old(state).spaces@, space_id@, app_id@) {
            Some((k, j)) => match r {
                Ok((p, settled)) => {
                    &&& p == perms_answered(perms_at(old(state).spaces@, k, j), camera, microphone)
                    &&& spaces_view(final(state).spaces@) == with_perms(old(state).spaces@, k, j, p)
                    &&& settled == match old(state).pending_of(app_id@) {
                        Some(w) => Some(pending_allowed(w, p)),
                        None => None::<bool>,
                    }
                    &&& forall|x: Seq<char>| #[trigger]
                        final(state).pending_of(x) == if x == app_id@ {
                            None
                        } else {
                            old(state).pending_of(x)
                        }
                    &&& final(state).global_config == old(state).global_config
                    &&& final(state).same_but_config_and_spaces_except_pending(old(state))
                },
                Err(_) => false,
            },
            None => match r {
                Ok(_) => false,
                Err(e) => e@ == lookup_error(old(state).spaces@, space_id@, app_id@) && *final(state)
                    == *old(state),
            },
        },
{
    let (k, j) = match locate_app(&state.spaces, space_id, app_id) {
        Ok(at) => at,
        Err(e) => {
            return Err(e);
        },
    };
    let old_perms = state.spaces[k].apps[j].permissions;
    let perms = AppPermissions {
        camera: match camera {
            Some(c) => c,
            None => old_perms.camera,
        },
        microphone: match microphone {
            Some(m) => m,
            None => old_perms.microphone,
        },
    };
    store_perms(&mut state.spaces, k, j, perms);
    let settled = match remove_key(&mut state.pending_media_requests, app_id) {
        Some((_, w)) => {
            let camera_ok = !w.wants_camera || perms.camera == PermissionState::Allow;
            let mic_ok = !w.wants_microphone || perms.microphone == PermissionState::Allow;
            Some(camera_ok && mic_ok)
        },
        None => None,
    };
    Ok((perms, settled))
}

/// Capture flags `c` after device `kind` became `active`; other kinds leave
/// them as they are.
pub open spec fn captures_after(c: ActiveCaptures, kind: Seq<char>, active: bool) -> ActiveCaptures {
    if kind == "camera"@ {
        ActiveCaptures { camera: active, microphone: c.microphone }
    } else if kind == "microphone"@ {
        ActiveCaptures { camera: c.camera, microphone: active }
    } else {
        c
    }
}

/// Records that app `app_id`'s device `kind` (`camera` or `microphone`)
/// became active or inactive. The app gets an entry even for another kind.
pub fn update_capture_state(state: &mut AppState, app_id: &str, kind: &str, active: bool)
    requires
        old(state).wf(),
    ensures
        final(state).wf(),
        forall|x: Seq<char>| #[trigger]
            final(state).captures_of(x) == if x == app_id@ {
                Some(
                    captures_after(
                        match old(state).captures_of(x) {
                            Some(c) => c,
                            None => ActiveCaptures { camera: false, microphone: false },
                        },
                        kind@,
                        active,
                    ),
                )
            } else {
                old(state).captures_of(x)
            },
        final(state).spaces == old(state).spaces,
        final(state).global_config == old(state).global_config,
        final(state).active_space_id == old(state).active_space_id,
        final(state).active_app_id == old(state).active_app_id,
        final(state).sidebar_visible == old(state).sidebar_visible,
        final(state).webview_labels == old(state).webview_labels,
        final(state).context_menu_target == old(state).context_menu_target,
        final(state).space_context_menu_target == old(state).space_context_menu_target,
        final(state).slept_apps == old(state).slept_apps,
        final(state).pending_media_requests == old(state).pending_media_requests,
{
    let current = match crate::state::find_key(&state.active_captures, app_id) {
        Some(i) => state.active_captures[i].1,
        None => ActiveCaptures { camera: false, microphone: false },
    };
    proof {
        crate::state::lemma_key_pos_none(state.active_captures@, app_id@);
    }
    let updated = if str_eq(kind, "camera") {
        ActiveCaptures { camera: active, microphone: current.microphone }
    } else if str_eq(kind, "microphone") {
        ActiveCaptures { camera: current.camera, microphone: active }
    } else {
        current
    };
    set_key(&mut state.active_captures, String::from_str(app_id), updated);
}

/// Forgets app `app_id`'s media bookkeeping: its waiting request (which the
/// caller then denies) and its capture flags. Returns whether a request was
/// waiting.
pub fn cleanup_media_state(state: &mut AppState, app_id: &str) -> (r: bool)
    requires
        old(state).wf(),
    ensures
        final(state).wf(),
        r == old(state).pending_of(app_id@) is Some,
        forall|x: Seq<char>| #[trigger]
            final(state).pending_of(x) == if x == app_id@ {
                None
            } else {
                old(state).pending_of(x)
            },
        forall|x: Seq<char>| #[trigger]
            final(state).captures_of(x) == if x == app_id@ {
                None
            } else {
                old(state).captures_of(x)
            },
        final(state).spaces == old(state).spaces,
        final(state).global_config == old(state).global_config,
        final(state).active_space_id == old(state).active_space_id,
        final(state).active_app_id == old(state).active_app_id,
        final(state).sidebar_visible == old(state).sidebar_visible,
        final(state).webview_labels == old(state).webview_labels,
        final(state).context_menu_target == old(state).context_menu_target,
        final(state).space_context_menu_target == old(state).space_context_menu_target,
        final(state).slept_apps == old(state).slept_apps,
{
    let had_pending = match remove_key(&mut state.pending_media_requests, app_id) {
        Some(_) => true,
        None => false,
    };
    let _ = remove_key(&mut state.active_captures, app_id);
    had_pending
}

/// Law: permissions that were stored are what a later read gives back:
/// after the app at (`k`, `j`) got the permissions `p`, the same lookup
/// finds the same app, with `p`.
pub proof fn law_permissions_read_back(
    old: Seq<SpaceConfig>,
    new: Seq<SpaceConfig>,
    space_id: Seq<char>,
    app_id: Seq<char>,
    k: int,
    j: int,
    p: AppPermissions,
)
    requires
        app_at(old, space_id, app_id) == Some((k, j)),
        spaces_view(new) == with_perms(old, k, j, p),
    ensures
        app_at(new, space_id, app_id) == Some((k, j)),
        perms_at(new, k, j) == p,
{
    crate::state::lemma_first_index(old, crate::state::has_space_id(space_id));
    let sp = crate::state::has_space_id(space_id);
    assert(new.len() == old.len()) by {
        assert(spaces_view(new).len() == new.len());
        assert(spaces_view(old).len() == old.len());
    }
    assert forall|i: int| 0 <= i < old.len() implies sp(old[i]) == sp(new[i]) by {
        assert(spaces_view(new)[i] == new[i]@);
        assert(spaces_view(old)[i] == old[i]@);
    }
    crate::state::lemma_first_index_congruent(old, sp, new, sp);
    assert(spaces_view(new)[k] == new[k]@);
    let oa = old[k].apps@;
    let na = new[k].apps@;
    crate::state::lemma_first_index(oa, crate::state::has_app_id(app_id));
    let ap = crate::state::has_app_id(app_id);
    assert forall|i: int| 0 <= i < oa.len() implies ap(oa[i]) == ap(na[i]) by {}
    crate::state::lemma_first_index_congruent(oa, ap, na, ap);
}

/// Law: how a capture request is answered from the stored decisions. A
/// request for no device, or for any device stored as blocked, is denied;
/// it is allowed exactly when it asks for some device and every device it
/// asks for is allowed; in every other case (some device asked for is still
/// to be asked, none blocked) the user is asked.
pub proof fn law_media_decision(
    wants_camera: bool,
    wants_microphone: bool,
    camera: PermissionState,
    microphone: PermissionState,
)
    ensures
        ({
            let d = request_decision(wants_camera, wants_microphone, camera, microphone);
            &&& wants_camera && camera == PermissionState::Block ==> d == MediaDecision::Deny
            &&& wants_microphone && microphone == PermissionState::Block ==> d == MediaDecision::Deny
            &&& !wants_camera && !wants_microphone ==> d == MediaDecision::Deny
            &&& d == MediaDecision::Allow <==> ((wants_camera || wants_microphone) && (wants_camera
                ==> camera == PermissionState::Allow) && (wants_microphone ==> microphone
                == PermissionState::Allow))
            &&& d == MediaDecision::Prompt <==> ((wants_camera || wants_microphone) && (wants_camera
                ==> camera != PermissionState::Block) && (wants_microphone ==> microphone
                != PermissionState::Block) && ((wants_camera && camera == PermissionState::Ask) || (
            wants_microphone && microphone == PermissionState::Ask)))
        }),
{
}

/// Law: a page's request for the app at a known place is answered from that
/// app's stored decisions (see [`law_media_decision`]): a device it asks
/// for that is stored as blocked denies it; a request of an unknown app is
/// denied.
pub proof fn law_request_answer_follows_permissions(
    state: AppState,
    space_id: Seq<char>,
    app_id: Seq<char>,
    wants_camera: bool,
    wants_microphone: bool,
)
    ensures
        ({
            let d = request_answer(state, space_id, app_id, wants_camera, wants_microphone);
            match app_at(state.spaces@, space_id, app_id) {
                None => d == MediaDecision::Deny,
                Some((k, j)) => {
                    let p = perms_at(state.spaces@, k, j);
                    &&& (wants_camera && p.camera == PermissionState::Block) || (wants_microphone
                        && p.microphone == PermissionState::Block) ==> d == MediaDecision::Deny
                    &&& d == MediaDecision::Allow <==> ((wants_camera || wants_microphone) && (
                    wants_camera ==> p.camera == PermissionState::Allow) && (wants_microphone
                        ==> p.microphone == PermissionState::Allow))
                },
            }
        }),
{
    match app_at(state.spaces@, space_id, app_id) {
        None => {},
        Some((k, j)) => {
            let p = perms_at(state.spaces@, k, j);
            law_media_decision(wants_camera, wants_microphone, p.camera, p.microphone);
        },
    }
}

/// Law: the permission decisions and their answers. Setting a device's
/// decision sets that one and keeps the other device's; an answer sets the
/// decisions given and keeps the others; a waiting request is allowed
/// exactly when every device it asked for is now allowed.
pub proof fn law_permission_updates(
    p: AppPermissions,
    kind: MediaKind,
    value: PermissionState,
    camera: Option<PermissionState>,
    microphone: Option<PermissionState>,
    req: PendingMediaRequest,
)
    ensures
        kind == MediaKind::Camera ==> perms_with(p, kind, value).camera == value && perms_with(
            p,
            kind,
            value,
        ).microphone == p.microphone,
        kind == MediaKind::Microphone ==> perms_with(p, kind, value).microphone == value && perms_with(
            p,
            kind,
            value,
        ).camera == p.camera,
        (camera matches Some(c) ==> perms_answered(p, camera, microphone).camera == c) && (camera is None
            ==> perms_answered(p, camera, microphone).camera == p.camera),
        (microphone matches Some(m) ==> perms_answered(p, camera, microphone).microphone == m) && (
        microphone is None ==> perms_answered(p, camera, microphone).microphone == p.microphone),
        pending_allowed(req, p) <==> ((req.wants_camera ==> p.camera == PermissionState::Allow) && (
        req.wants_microphone ==> p.microphone == PermissionState::Allow)),
{
}

/// Law: a device's capture flag follows its reports: after `camera` or
/// `microphone` becomes active or inactive its flag is that, the other
/// device's flag stays, and a report for another kind changes nothing.
pub proof fn law_capture_flags(c: ActiveCaptures, kind: Seq<char>, active: bool)
    ensures
        kind == "camera"@ ==> captures_after(c, kind, active).camera == active && captures_after(
            c,
            kind,
            active,
        ).microphone == c.microphone,
        kind == "microphone"@ ==> captures_after(c, kind, active).microphone == active && captures_after(
            c,
            kind,
            active,
        ).camera == c.camera,
        kind != "camera"@ && kind != "microphone"@ ==> captures_after(c, kind, active) == c,
{
    reveal_strlit("camera");
    reveal_strlit("microphone");
    assert("camera"@.len() != "microphone"@.len());
}

} // verus!
