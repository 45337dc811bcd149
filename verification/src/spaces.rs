//! Space commands: listing in the user's order, creating, renaming,
//! deleting, switching and editing spaces.
//!
//! Each command changes the state only; persisting the changed space or the
//! global configuration is the caller's part.
use vstd::prelude::*;
use crate::models::{AppConfig, IsolationMode, SpaceConfig, SpaceInfo, clone_apps, clone_spaces, spaces_view};
use crate::state::{AppState, space_pos, find_space, space_not_found, space_not_found_msg, texts, lemma_first_index};
use crate::text::{str_eq, to_chars, from_chars, lowercase, to_lowercase};

verus! {

broadcast use vstd::string::group_string_axioms;

/// A space's view: its settings and its apps.
pub type SpaceView = (SpaceInfo, Seq<AppConfig>);

/// A space whose id is `id`.
pub open spec fn has_id(id: Seq<char>) -> spec_fn(SpaceView) -> bool {
    |v: SpaceView| v.0.id@ == id
}

/// A space whose id is one of `ids`.
pub open spec fn listed_in(ids: Seq<Seq<char>>) -> spec_fn(SpaceView) -> bool {
    |v: SpaceView| ids.contains(v.0.id@)
}

/// A space whose id is none of `ids`.
pub open spec fn not_listed_in(ids: Seq<Seq<char>>) -> spec_fn(SpaceView) -> bool {
    |v: SpaceView| !ids.contains(v.0.id@)
}

/// The spaces of `s` whose id is `id`, in order.
pub open spec fn with_id(s: Seq<SpaceView>, id: Seq<char>) -> Seq<SpaceView> {
    s.filter(has_id(id))
}

/// The spaces of `s` whose id is not in `order`, in order.
pub open spec fn not_in(s: Seq<SpaceView>, order: Seq<Seq<char>>) -> Seq<SpaceView> {
    s.filter(not_listed_in(order))
}

/// The spaces placed by the first `n` entries of `order`: for each entry
/// that has not occurred before it, the spaces with that id.
pub open spec fn placed(s: Seq<SpaceView>, order: Seq<Seq<char>>, n: int) -> Seq<SpaceView>
    decreases n,
{
    if n <= 0 {
        seq![]
    } else {
        let r = placed(s, order, n - 1);
        if order.take(n - 1).contains(order[n - 1]) {
            r
        } else {
            r + with_id(s, order[n - 1])
        }
    }
}

/// The spaces in the user's order: a stable sort by the first position of
/// each space's id in `order`, spaces missing from `order` last.
pub open spec fn arranged(s: Seq<SpaceView>, order: Seq<Seq<char>>) -> Seq<SpaceView> {
    if order.len() == 0 {
        s
    } else {
        placed(s, order, order.len() as int) + not_in(s, order)
    }
}

fn append_with_id(r: &mut Vec<SpaceConfig>, spaces: &Vec<SpaceConfig>, id: &str)
    ensures
        spaces_view(final(r)@) == spaces_view(old(r)@) + with_id(spaces_view(spaces@), id@),
{
    let ghost sv = spaces_view(spaces@);
    let ghost start = spaces_view(r@);
    let mut i: usize = 0;
    while i < spaces.len()
        invariant
            i <= spaces.len(),
            sv == spaces_view(spaces@),
            spaces_view(r@) == start + with_id(sv.take(i as int), id@),
        decreases spaces.len() - i,
    {
        proof {
            reveal(Seq::filter);
        }
        assert(sv.take(i + 1).drop_last() =~= sv.take(i as int));
        assert(sv.take(i + 1).last() == sv[i as int]);
        let ghost before = spaces_view(r@);
        if str_eq(spaces[i].space.id.as_str(), id) {
            let c = spaces[i].clone();
            r.push(c);
            assert(spaces_view(r@) =~= before.push(sv[i as int]));
            assert(spaces_view(r@) =~= start + with_id(sv.take(i + 1), id@));
        } else {
            assert(spaces_view(r@) =~= start + with_id(sv.take(i + 1), id@));
        }
        i = i + 1;
    }
    assert(sv.take(spaces.len() as int) =~= sv);
}

fn strings_contain(v: &Vec<String>, upto: usize, id: &str) -> (b: bool)
    requires
        upto <= v.len(),
    ensures
        b == texts(v@).take(upto as int).contains(id@),
{
    let mut k: usize = 0;
    while k < upto
        invariant
            k <= upto <= v.len(),
            forall|m: int| 0 <= m < k ==> v@[m]@ != id@,
        decreases upto - k,
    {
        if str_eq(v[k].as_str(), id) {
            assert(texts(v@).take(upto as int)[k as int] == id@);
            return true;
        }
        k = k + 1;
    }
    assert forall|m: int| 0 <= m < upto implies texts(v@).take(upto as int)[m] != id@ by {}
    false
}

fn append_not_in(r: &mut Vec<SpaceConfig>, spaces: &Vec<SpaceConfig>, order: &Vec<String>)
    ensures
        spaces_view(final(r)@) == spaces_view(old(r)@) + not_in(spaces_view(spaces@), texts(order@)),
{
    let ghost sv = spaces_view(spaces@);
    let ghost start = spaces_view(r@);
    let mut i: usize = 0;
    while i < spaces.len()
        invariant
            i <= spaces.len(),
            sv == spaces_view(spaces@),
            spaces_view(r@) == start + not_in(sv.take(i as int), texts(order@)),
        decreases spaces.len() - i,
    {
        proof {
            reveal(Seq::filter);
        }
        assert(sv.take(i + 1).drop_last() =~= sv.take(i as int));
        let listed = strings_contain(order, order.len(), spaces[i].space.id.as_str());
        assert(texts(order@).take(order.len() as int) =~= texts(order@));
        assert(sv.take(i + 1).last() == sv[i as int]);
        let ghost before = spaces_view(r@);
        if !listed {
            let c = spaces[i].clone();
            r.push(c);
            assert(spaces_view(r@) =~= before.push(sv[i as int]));
            assert(spaces_view(r@) =~= start + not_in(sv.take(i + 1), texts(order@)));
        } else {
            assert(spaces_view(r@) =~= start + not_in(sv.take(i + 1), texts(order@)));
        }
        i = i + 1;
    }
    assert(sv.take(spaces.len() as int) =~= sv);
}

/// The spaces in the order the user arranged them (see [`arranged`]).
pub fn list_spaces(state: &AppState) -> (r: Vec<SpaceConfig>)
    ensures
        spaces_view(r@) == arranged(spaces_view(state.spaces@), texts(state.global_config.general.space_order@)),
{
    let order = &state.global_config.general.space_order;
    if order.len() == 0 {
        return clone_spaces(&state.spaces);
    }
    let ghost sv = spaces_view(state.spaces@);
    let ghost ot = texts(order@);
    let mut r: Vec<SpaceConfig> = Vec::new();
    let mut j: usize = 0;
    while j < order.len()
        invariant
            j <= order.len(),
            sv == spaces_view(state.spaces@),
            ot == texts(order@),
            order == &state.global_config.general.space_order,
            spaces_view(r@) == placed(sv, ot, j as int),
        decreases order.len() - j,
    {
        let seen = strings_contain(order, j, order[j].as_str());
        if !seen {
            append_with_id(&mut r, &state.spaces, order[j].as_str());
        }
        j = j + 1;
    }
    append_not_in(&mut r, &state.spaces, order);
    r
}

/// The active space's id.
pub fn get_active_space(state: &AppState) -> (r: String)
    ensures
        r == state.active_space_id,
{
    state.active_space_id.clone()
}

/// The id a space named `name` gets: the name in lower case with each space
/// character replaced by `-`.
pub open spec fn space_id_for(name: Seq<char>) -> Seq<char> {
    lowercase(name).map_values(|c: char| if c == ' ' { '-' } else { c })
}

fn replace_spaces(v: &[char]) -> (r: Vec<char>)
    ensures
        r@ == v@.map_values(|c: char| if c == ' ' { '-' } else { c }),
{
    let mut r: Vec<char> = Vec::new();
    let mut i: usize = 0;
    while i < v.len()
        invariant
            i <= v.len(),
            r@ == v@.take(i as int).map_values(|c: char| if c == ' ' { '-' } else { c }),
        decreases v.len() - i,
    {
        let c = v[i];
        r.push(if c == ' ' { '-' } else { c });
        assert(v@.take(i + 1).map_values(|c: char| if c == ' ' { '-' } else { c })
            =~= v@.take(i as int).map_values(|c: char| if c == ' ' { '-' } else { c }).push(
            if c == ' ' { '-' } else { c }));
        i = i + 1;
    }
    assert(v@.take(v.len() as int) =~= v@);
    r
}

/// A new, empty space named `name`: its id derived from the name (see
/// [`space_id_for`]), the `folder` icon, the given colour or `#4a9eff`, and
/// shared sessions.
pub fn new_space(name: &str, color: Option<String>) -> (r: SpaceConfig)
    ensures
        r.space.id@ == space_id_for(name@),
        r.space.name@ == name@,
        r.space.icon@ == "folder"@,
        match color {
            Some(c) => r.space.color == c,
            None => r.space.color@ == "#4a9eff"@,
        },
        r.space.isolation == IsolationMode::Shared,
        r.apps@.len() == 0,
{
    let lower = to_lowercase(name);
    let lv = to_chars(lower.as_str());
    let idv = replace_spaces(lv.as_slice());
    let id = from_chars(idv.as_slice());
    let color = match color {
        Some(c) => c,
        None => String::from_str("#4a9eff"),
    };
    SpaceConfig {
        space: SpaceInfo {
            id,
            name: String::from_str(name),
            icon: String::from_str("folder"),
            color,
            isolation: IsolationMode::Shared,
        },
        apps: Vec::new(),
    }
}

/// Registers a newly created (and already saved) space: appends it to the
/// spaces and its id to the user's space order. Returns the space.
pub fn create_space(state: &mut AppState, space: SpaceConfig) -> (r: SpaceConfig)
    ensures
        r@ == space@,
        spaces_view(final(state).spaces@) == spaces_view(old(state).spaces@).push(space@),
        texts(final(state).global_config.general.space_order@) == texts(
            old(state).global_config.general.space_order@,
        ).push(space.space.id@),
        final(state).global_config.general.same_but_order(&old(state).global_config.general),
        final(state).same_but_config_and_spaces(old(state)),
{
    let c = space.clone();
    let id = space.space.id.clone();
    state.spaces.push(c);
    state.global_config.general.space_order.push(id);
    proof {
        assert(spaces_view(state.spaces@) =~= spaces_view(old(state).spaces@).push(space@));
        assert(texts(state.global_config.general.space_order@) =~= texts(
            old(state).global_config.general.space_order@,
        ).push(space.space.id@));
    }
    space
}

/// Space settings `info` with the name `name`.
pub open spec fn renamed(info: SpaceInfo, name: String) -> SpaceInfo {
    SpaceInfo { id: info.id, name: name, icon: info.icon, color: info.color, isolation: info.isolation }
}

/// Space settings `info` with the name and the colour replaced where given.
pub open spec fn edited(info: SpaceInfo, name: Option<String>, color: Option<String>) -> SpaceInfo {
    SpaceInfo {
        id: info.id,
        name: match name {
            Some(n) => n,
            None => info.name,
        },
        icon: info.icon,
        color: match color {
            Some(c) => c,
            None => info.color,
        },
        isolation: info.isolation,
    }
}

/// Space settings `info` with the isolation mode `mode`.
pub open spec fn with_isolation(info: SpaceInfo, mode: IsolationMode) -> SpaceInfo {
    SpaceInfo { id: info.id, name: info.name, icon: info.icon, color: info.color, isolation: mode }
}

/// The spaces after the first space with id `id` has had its settings
/// changed by `f`; unchanged where there is no such space.
pub open spec fn change_space(
    spaces: Seq<SpaceConfig>,
    id: Seq<char>,
    f: spec_fn(SpaceInfo) -> SpaceInfo,
) -> Seq<SpaceView> {
    match space_pos(spaces, id) {
        Some(k) => spaces_view(spaces).update(k, (f(spaces[k].space), spaces[k].apps@)),
        None => spaces_view(spaces),
    }
}

/// Replaces the settings of space `k`, keeping its apps.
fn set_space_info(spaces: &mut Vec<SpaceConfig>, k: usize, info: SpaceInfo)
    requires
        k < old(spaces).len(),
    ensures
        spaces_view(final(spaces)@) == spaces_view(old(spaces)@).update(
            k as int,
            (info, old(spaces)@[k as int].apps@),
        ),
{
    let apps = clone_apps(&spaces[k].apps);
    let ghost before = spaces_view(spaces@);
    spaces.set(k, SpaceConfig { space: info, apps });
    proof {
        assert(spaces_view(spaces@) =~= before.update(k as int, (info, old(spaces)@[k as int].apps@)));
    }
}

/// Renames the first space with id `space_id`. Returns its index, so that
/// the caller can save it; `None`, and nothing changed, where there is no
/// such space.
pub fn rename_space(state: &mut AppState, space_id: &str, new_name: String) -> (r: Option<usize>)
    ensures
        r == match space_pos(old(state).spaces@, space_id@) {
            Some(k) => Some(k as usize),
            None => None::<usize>,
        },
        spaces_view(final(state).spaces@) == change_space(
            old(state).spaces@,
            space_id@,
            |info: SpaceInfo| renamed(info, new_name),
        ),
        final(state).same_but_spaces(old(state)),
{
    match find_space(&state.spaces, space_id) {
        Some(k) => {
            let mut info = state.spaces[k].space.clone();
            info.name = new_name;
            assert(info == renamed(old(state).spaces@[k as int].space, new_name));
            set_space_info(&mut state.spaces, k, info);
            Some(k)
        },
        None => None,
    }
}

/// Changes the name and the colour, where given, of the first space with id
/// `space_id`. Returns its index, so that the caller can save it; `None`, and
/// nothing changed, where there is no such space.
pub fn edit_space(
    state: &mut AppState,
    space_id: &str,
    name: Option<String>,
    color: Option<String>,
) -> (r: Option<usize>)
    ensures
        r == match space_pos(old(state).spaces@, space_id@) {
            Some(k) => Some(k as usize),
            None => None::<usize>,
        },
        spaces_view(final(state).spaces@) == change_space(
            old(state).spaces@,
            space_id@,
            |info: SpaceInfo| edited(info, name, color),
        ),
        final(state).same_but_spaces(old(state)),
{
    match find_space(&state.spaces, space_id) {
        Some(k) => {
            let mut info = state.spaces[k].space.clone();
            match name {
                Some(n) => {
                    info.name = n;
                },
                None => {},
            }
            match color {
                Some(c) => {
                    info.color = c;
                },
                None => {},
            }
            assert(info == edited(old(state).spaces@[k as int].space, name, color));
            set_space_info(&mut state.spaces, k, info);
            Some(k)
        },
        None => None,
    }
}

/// Sets the isolation mode of the first space with id `space_id`. Returns its
/// index, so that the caller can save it; `None`, and nothing changed, where
/// there is no such space.
pub fn set_space_isolation(state: &mut AppState, space_id: &str, mode: IsolationMode) -> (r: Option<
    usize,
>)
    ensures
        r == match space_pos(old(state).spaces@, space_id@) {
            Some(k) => Some(k as usize),
            None => None::<usize>,
        },
        spaces_view(final(state).spaces@) == change_space(
            old(state).spaces@,
            space_id@,
            |info: SpaceInfo| with_isolation(info, mode),
        ),
        final(state).same_but_spaces(old(state)),
{
    match find_space(&state.spaces, space_id) {
        Some(k) => {
            let mut info = state.spaces[k].space.clone();
            info.isolation = mode;
            assert(info == with_isolation(old(state).spaces@[k as int].space, mode));
            set_space_info(&mut state.spaces, k, info);
            Some(k)
        },
        None => None,
    }
}

/// The message for an attempt to delete the default space.
pub open spec fn general_undeletable_msg() -> Seq<char> {
    "Cannot delete the default General space"@
}

/// Whether space `space_id` may be deleted: every space but `general` may.
pub fn check_space_deletable(space_id: &str) -> (r: Result<(), String>)
    ensures
        r is Err <==> space_id@ == "general"@,
        r matches Err(e) ==> e@ == general_undeletable_msg(),
{
    if str_eq(space_id, "general") {
        Err(String::from_str("Cannot delete the default General space"))
    } else {
        Ok(())
    }
}

/// A space whose id is not `id`.
pub open spec fn id_differs(id: Seq<char>) -> spec_fn(SpaceView) -> bool {
    |v: SpaceView| v.0.id@ != id
}

/// The spaces of `s` other than those with id `id`.
pub open spec fn without_id(s: Seq<SpaceView>, id: Seq<char>) -> Seq<SpaceView> {
    s.filter(id_differs(id))
}

/// The texts of `s` other than `id`.
pub open spec fn without_text(s: Seq<Seq<char>>, id: Seq<char>) -> Seq<Seq<char>> {
    s.filter(|t: Seq<char>| t != id)
}

fn remove_spaces_with_id(spaces: &Vec<SpaceConfig>, id: &str) -> (r: Vec<SpaceConfig>)
    ensures
        spaces_view(r@) == without_id(spaces_view(spaces@), id@),
{
    let ghost sv = spaces_view(spaces@);
    let mut r: Vec<SpaceConfig> = Vec::new();
    let mut i: usize = 0;
    while i < spaces.len()
        invariant
            i <= spaces.len(),
            sv == spaces_view(spaces@),
            spaces_view(r@) == without_id(sv.take(i as int), id@),
        decreases spaces.len() - i,
    {
        proof {
            reveal(Seq::filter);
        }
        assert(sv.take(i + 1).drop_last() =~= sv.take(i as int));
        assert(sv.take(i + 1).last() == sv[i as int]);
        let ghost before = spaces_view(r@);
        if !str_eq(spaces[i].space.id.as_str(), id) {
            let c = spaces[i].clone();
            r.push(c);
            assert(spaces_view(r@) =~= before.push(sv[i as int]));
        }
        assert(spaces_view(r@) =~= without_id(sv.take(i + 1), id@));
        i = i + 1;
    }
    assert(sv.take(spaces.len() as int) =~= sv);
    r
}

/// The strings of `v` other than `id`.
pub fn remove_string(v: &Vec<String>, id: &str) -> (r: Vec<String>)
    ensures
        texts(r@) == without_text(texts(v@), id@),
{
    let ghost tv = texts(v@);
    let mut r: Vec<String> = Vec::new();
    let mut i: usize = 0;
    while i < v.len()
        invariant
            i <= v.len(),
            tv == texts(v@),
            texts(r@) == without_text(tv.take(i as int), id@),
        decreases v.len() - i,
    {
        proof {
            reveal(Seq::filter);
        }
        assert(tv.take(i + 1).drop_last() =~= tv.take(i as int));
        assert(tv.take(i + 1).last() == tv[i as int]);
        let ghost before = texts(r@);
        if !str_eq(v[i].as_str(), id) {
            let c = v[i].clone();
            r.push(c);
            assert(texts(r@) =~= before.push(tv[i as int]));
        }
        assert(texts(r@) =~= without_text(tv.take(i + 1), id@));
        i = i + 1;
    }
    assert(tv.take(v.len() as int) =~= tv);
    r
}

/// Deletes every space with id `space_id` from the state (its file is the
/// caller's part): drops it from the spaces and from the user's space order,
/// and makes `general` active where it was the active space. The `general`
/// space cannot be deleted; the state is then unchanged.
pub fn delete_space(state: &mut AppState, space_id: &str) -> (r: Result<(), String>)
    ensures
        r is Err <==> space_id@ == "general"@,
        match r {
            Err(e) => e@ == general_undeletable_msg() && *final(state) == *old(state),
            Ok(_) => {
                &&& spaces_view(final(state).spaces@) == without_id(spaces_view(old(state).spaces@), space_id@)
                &&& texts(final(state).global_config.general.space_order@) == without_text(
                    texts(old(state).global_config.general.space_order@),
                    space_id@,
                )
                &&& final(state).global_config.general.same_but_order(&old(state).global_config.general)
                &&& final(state).active_space_id@ == (if old(state).active_space_id@ == space_id@ {
                    "general"@
                } else {
                    old(state).active_space_id@
                })
                &&& final(state).active_app_id == old(state).active_app_id
                &&& final(state).same_bookkeeping(old(state))
            },
        },
{
    match check_space_deletable(space_id) {
        Err(e) => {
            return Err(e);
        },
        Ok(()) => {},
    }
    let kept = remove_spaces_with_id(&state.spaces, space_id);
    state.spaces = kept;
    if str_eq(state.active_space_id.as_str(), space_id) {
        state.active_space_id = String::from_str("general");
    }
    let order = remove_string(&state.global_config.general.space_order, space_id);
    state.global_config.general.space_order = order;
    Ok(())
}

/// Makes the first space with id `space_id` active, with no app active, and
/// returns a copy of it; an error, and nothing changed, where there is no
/// such space.
pub fn switch_space(state: &mut AppState, space_id: &str) -> (r: Result<SpaceConfig, String>)
    ensures
        match space_pos(old(state).spaces@, space_id@) {
            Some(k) => match r {
                Ok(sp) => {
                    &&& sp@ == old(state).spaces@[k]@
                    &&& final(state).active_space_id@ == space_id@
                    &&& final(state).active_app_id is None
                    &&& final(state).spaces == old(state).spaces
                    &&& final(state).global_config == old(state).global_config
                    &&& final(state).same_bookkeeping(old(state))
                },
                Err(_) => false,
            },
            None => match r {
                Ok(_) => false,
                Err(e) => e@ == space_not_found_msg(space_id@) && *final(state) == *old(state),
            },
        },
{
    match find_space(&state.spaces, space_id) {
        Some(k) => {
            let sp = state.spaces[k].clone();
            state.active_space_id = String::from_str(space_id);
            state.active_app_id = None;
            Ok(sp)
        },
        None => Err(space_not_found(space_id)),
    }
}

/// Replaces the user's space order with `space_ids` (saving the
/// configuration is the caller's part).
pub fn reorder_spaces(state: &mut AppState, space_ids: Vec<String>)
    ensures
        final(state).global_config.general.space_order == space_ids,
        final(state).global_config.general.same_but_order(&old(state).global_config.general),
        final(state).spaces == old(state).spaces,
        final(state).same_but_config_and_spaces(old(state)),
{
    state.global_config.general.space_order = space_ids;
}

/// Records `space_id` as the target of the space context menu. Returns
/// whether the menu's delete entry is enabled: for every space but `general`.
pub fn target_space_menu(state: &mut AppState, space_id: String) -> (r: bool)
    ensures
        final(state).space_context_menu_target == Some(space_id),
        r == (space_id@ != "general"@),
        final(state).global_config == old(state).global_config,
        final(state).spaces == old(state).spaces,
        final(state).active_space_id == old(state).active_space_id,
        final(state).active_app_id == old(state).active_app_id,
        final(state).sidebar_visible == old(state).sidebar_visible,
        final(state).webview_labels == old(state).webview_labels,
        final(state).context_menu_target == old(state).context_menu_target,
        final(state).slept_apps == old(state).slept_apps,
        final(state).active_captures == old(state).active_captures,
{
    let deletable = !str_eq(space_id.as_str(), "general");
    state.space_context_menu_target = Some(space_id);
    deletable
}

/// Law: once a space has been created (appended), a space with its id is
/// found, so switching to it succeeds; where its id was new, the one found
/// is the created space.
pub proof fn law_created_space_is_found(old: Seq<SpaceConfig>, new: Seq<SpaceConfig>, space: SpaceConfig)
    requires
        spaces_view(new) == spaces_view(old).push(space@),
    ensures
        space_pos(new, space.space.id@) is Some,
        space_pos(old, space.space.id@) is None ==> space_pos(new, space.space.id@) == Some(old.len() as int)
            && new[old.len() as int]@ == space@,
{
    let id = space.space.id@;
    let p = crate::state::has_space_id(id);
    assert(new.len() == old.len() + 1) by {
        assert(spaces_view(new).len() == new.len());
    }
    assert(spaces_view(new)[old.len() as int] == new[old.len() as int]@);
    assert(p(new[old.len() as int]));
    crate::state::lemma_first_index(new, p);
    crate::state::lemma_first_index(old, p);
    if space_pos(old, id) is None {
        assert forall|j: int| 0 <= j < old.len() implies !p(new[j]) by {
            assert(spaces_view(new)[j] == new[j]@);
            assert(spaces_view(old)[j] == old[j]@);
        }
        crate::state::lemma_first_index_is(new, p, old.len() as int);
    }
}

/// Law: once a space id has been deleted, no space has it: switching to it
/// fails.
pub proof fn law_deleted_space_is_gone(old: Seq<SpaceConfig>, new: Seq<SpaceConfig>, id: Seq<char>)
    requires
        spaces_view(new) == without_id(spaces_view(old), id),
    ensures
        space_pos(new, id) is None,
{
    let p = crate::state::has_space_id(id);
    assert forall|j: int| 0 <= j < new.len() implies !p(new[j]) by {
        assert(spaces_view(new)[j] == new[j]@);
        assert(spaces_view(new).len() == new.len());
        spaces_view(old).lemma_filter_pred(id_differs(id), j);
    }
    crate::state::lemma_first_index(new, p);
}

/// Either predicate holds.
pub open spec fn either(p: spec_fn(SpaceView) -> bool, q: spec_fn(SpaceView) -> bool) -> spec_fn(
    SpaceView,
) -> bool {
    |v: SpaceView| p(v) || q(v)
}

proof fn lemma_filter_all(s: Seq<SpaceView>, p: spec_fn(SpaceView) -> bool)
    requires
        forall|v: SpaceView| #[trigger] p(v),
    ensures
        s.filter(p) == s,
    decreases s.len(),
{
    reveal(Seq::filter);
    if s.len() > 0 {
        lemma_filter_all(s.drop_last(), p);
        assert(s.drop_last().push(s.last()) =~= s);
    }
}

proof fn lemma_filter_none(s: Seq<SpaceView>, p: spec_fn(SpaceView) -> bool)
    requires
        forall|v: SpaceView| !#[trigger] p(v),
    ensures
        s.filter(p) == Seq::<SpaceView>::empty(),
    decreases s.len(),
{
    reveal(Seq::filter);
    if s.len() > 0 {
        lemma_filter_none(s.drop_last(), p);
    }
}

proof fn lemma_filter_union(s: Seq<SpaceView>, p: spec_fn(SpaceView) -> bool, q: spec_fn(SpaceView) -> bool)
    requires
        forall|v: SpaceView| !(#[trigger] p(v) && q(v)),
    ensures
        s.filter(either(p, q)).to_multiset() == s.filter(p).to_multiset().add(s.filter(q).to_multiset()),
    decreases s.len(),
{
    broadcast use vstd::multiset::group_multiset_axioms;

    reveal(Seq::filter);
    if s.len() == 0 {
        vstd::seq_lib::to_multiset_len(s);
        vstd::multiset::lemma_multiset_empty_len(s.to_multiset());
        assert(s.to_multiset() =~= vstd::multiset::Multiset::empty());
    } else {
        let r = s.drop_last();
        let e = s.last();
        lemma_filter_union(r, p, q);
        if p(e) {
            vstd::seq_lib::to_multiset_build(r.filter(either(p, q)), e);
            vstd::seq_lib::to_multiset_build(r.filter(p), e);
            assert(s.filter(either(p, q)).to_multiset() =~= s.filter(p).to_multiset().add(
                s.filter(q).to_multiset(),
            ));
        } else if q(e) {
            vstd::seq_lib::to_multiset_build(r.filter(either(p, q)), e);
            vstd::seq_lib::to_multiset_build(r.filter(q), e);
            assert(s.filter(either(p, q)).to_multiset() =~= s.filter(p).to_multiset().add(
                s.filter(q).to_multiset(),
            ));
        } else {
        }
    }
}

proof fn lemma_placed(s: Seq<SpaceView>, order: Seq<Seq<char>>, n: int)
    requires
        0 <= n <= order.len(),
    ensures
        placed(s, order, n).to_multiset() == s.filter(listed_in(order.take(n))).to_multiset(),
    decreases n,
{
    broadcast use vstd::multiset::group_multiset_axioms;

    if n == 0 {
        assert(forall|v: SpaceView| !#[trigger] listed_in(order.take(0))(v)) by {
            assert(order.take(0) =~= Seq::<Seq<char>>::empty());
        }
        lemma_filter_none(s, listed_in(order.take(0)));
        assert(placed(s, order, 0) =~= Seq::<SpaceView>::empty());
    } else {
        lemma_placed(s, order, n - 1);
        let x = order[n - 1];
        assert(order.take(n) =~= order.take(n - 1).push(x));
        if order.take(n - 1).contains(x) {
            assert(listed_in(order.take(n)) =~= listed_in(order.take(n - 1)));
        } else {
            let p = listed_in(order.take(n - 1));
            let q = has_id(x);
            let t = order.take(n);
            let t0 = order.take(n - 1);
            assert forall|v: SpaceView| #[trigger] listed_in(t)(v) == either(p, q)(v) by {
                let id = v.0.id@;
                if t0.contains(id) {
                    let i = choose|i: int| 0 <= i < t0.len() && t0[i] == id;
                    assert(t[i] == t0[i]);
                }
                if id == x {
                    assert(t[n - 1] == x);
                }
                if t.contains(id) {
                    let i = choose|i: int| 0 <= i < t.len() && t[i] == id;
                    if i < n - 1 {
                        assert(t0[i] == t[i]);
                    }
                }
            }
            assert(listed_in(t) =~= either(p, q));
            lemma_filter_union(s, p, q);
            vstd::seq_lib::lemma_multiset_commutative(placed(s, order, n - 1), with_id(s, x));
        }
    }
}

/// Law: listing the spaces in the user's order shows every space exactly
/// once: the listing is a rearrangement of the spaces.
pub proof fn law_listing_is_a_rearrangement(s: Seq<SpaceView>, order: Seq<Seq<char>>)
    ensures
        arranged(s, order).to_multiset() == s.to_multiset(),
{
    broadcast use vstd::multiset::group_multiset_axioms;

    if order.len() > 0 {
        let n = order.len() as int;
        lemma_placed(s, order, n);
        assert(order.take(n) =~= order);
        let p = listed_in(order);
        let q = not_listed_in(order);
        lemma_filter_union(s, p, q);
        assert(forall|v: SpaceView| #[trigger] either(p, q)(v));
        lemma_filter_all(s, either(p, q));
        vstd::seq_lib::lemma_multiset_commutative(placed(s, order, n), not_in(s, order));
    }
}

/// Law: changing a space's settings stores exactly what was given:
/// renaming sets the name, editing sets each given name or colour and keeps
/// each one not given, setting the isolation sets the mode; the space's id,
/// and every setting not named, stay as they were.
pub proof fn law_space_settings_store_given(
    info: SpaceInfo,
    new_name: String,
    name: Option<String>,
    color: Option<String>,
    mode: IsolationMode,
)
    ensures
        renamed(info, new_name).id == info.id && renamed(info, new_name).name == new_name
            && renamed(info, new_name).icon == info.icon && renamed(info, new_name).color == info.color
            && renamed(info, new_name).isolation == info.isolation,
        ({
            let e = edited(info, name, color);
            &&& e.id == info.id && e.icon == info.icon && e.isolation == info.isolation
            &&& (name matches Some(n) ==> e.name == n) && (name is None ==> e.name == info.name)
            &&& (color matches Some(c) ==> e.color == c) && (color is None ==> e.color == info.color)
        }),
        ({
            let w = with_isolation(info, mode);
            &&& w.isolation == mode
            &&& w.id == info.id && w.name == info.name && w.icon == info.icon && w.color == info.color
        }),
{
}

/// Law: a space's id is its name in lower case with every space character
/// turned into `-`: it is as long as the lower-cased name, holds no space
/// character, and agrees with the lower-cased name wherever that has none.
pub proof fn law_space_id_from_name(name: Seq<char>)
    ensures
        space_id_for(name).len() == lowercase(name).len(),
        forall|i: int| 0 <= i < space_id_for(name).len() ==> #[trigger] space_id_for(name)[i] != ' ',
        forall|i: int|
            0 <= i < lowercase(name).len() ==> #[trigger] space_id_for(name)[i] == if lowercase(name)[i] == ' ' {
                '-'
            } else {
                lowercase(name)[i]
            },
{
}

} // verus!
