//! Keyboard shortcuts: the index arithmetic of cycling, jumping and
//! closing, the listener script injected into app webviews, and what each
//! shortcut action does.
use vstd::prelude::*;
use crate::numbers::{parse_unsigned, parse_usize};
use crate::state::{AppState, find_space, first_index, lemma_first_index, space_not_found, space_not_found_msg, space_pos, texts};
use crate::text::{slice_to_vec, starts_with, starts_with_exec, str_eq, to_chars};

verus! {

broadcast use vstd::string::group_string_axioms;

/// Cycle direction for [`cycle_index`].
#[derive(PartialEq, Eq, Debug, Clone, Copy, Structural)]
pub enum CycleDir {
    Next,
    Prev,
}

/// The index after (`Next`) or before (`Prev`) `current` in a list of `len`
/// apps, wrapping around.
pub open spec fn cycle_target(current: int, len: int, dir: CycleDir) -> int {
    match dir {
        CycleDir::Next => (current + 1) % len,
        CycleDir::Prev => (current + len - 1) % len,
    }
}

/// Wrapping index for cycling apps: the next or previous index after
/// `current`, wrapping around a list of `len` apps. `None` if the list is empty.
pub fn cycle_index(current: usize, len: usize, dir: CycleDir) -> (r: Option<usize>)
    requires
        len > 0 && dir is Next ==> current + 1 <= usize::MAX,
        len > 0 && dir is Prev ==> current + len <= usize::MAX,
    ensures
        len == 0 ==> r is None,
        len > 0 ==> r == Some(cycle_target(current as int, len as int, dir) as usize),
{
    if len == 0 {
        return None;
    }
    Some(
        match dir {
            CycleDir::Next => (current + 1) % len,
            CycleDir::Prev => (current + len - 1) % len,
        },
    )
}

/// Law: cycling forward opens the next app, and the first after the last;
/// cycling back opens the previous app, and the last before the first; so
/// cycling forward and then back returns to the app one started from, and
/// so does cycling back and then forward.
pub proof fn law_cycle_round_trip(current: int, len: int)
    requires
        0 <= current < len,
    ensures
        cycle_target(cycle_target(current, len, CycleDir::Next), len, CycleDir::Prev) == current,
        cycle_target(cycle_target(current, len, CycleDir::Prev), len, CycleDir::Next) == current,
        0 <= cycle_target(current, len, CycleDir::Next) < len,
        0 <= cycle_target(current, len, CycleDir::Prev) < len,
        current + 1 < len ==> cycle_target(current, len, CycleDir::Next) == current + 1,
        current + 1 == len ==> cycle_target(current, len, CycleDir::Next) == 0,
        current > 0 ==> cycle_target(current, len, CycleDir::Prev) == current - 1,
        current == 0 ==> cycle_target(current, len, CycleDir::Prev) == len - 1,
{
    let n = cycle_target(current, len, CycleDir::Next);
    let p = cycle_target(current, len, CycleDir::Prev);
    if current + 1 < len {
        assert(n == current + 1) by {
            vstd::arithmetic::div_mod::lemma_small_mod((current + 1) as nat, len as nat);
        }
    } else {
        assert(n == 0) by {
            vstd::arithmetic::div_mod::lemma_mod_self_0(len);
        }
    }
    if current > 0 {
        assert(p == current - 1) by {
            vstd::arithmetic::div_mod::lemma_mod_add_multiples_vanish(current - 1, len);
            vstd::arithmetic::div_mod::lemma_small_mod((current - 1) as nat, len as nat);
        }
    } else {
        assert(p == len - 1) by {
            vstd::arithmetic::div_mod::lemma_small_mod((len - 1) as nat, len as nat);
        }
    }
    let np = cycle_target(n, len, CycleDir::Prev);
    if n > 0 {
        assert(np == n - 1) by {
            vstd::arithmetic::div_mod::lemma_mod_add_multiples_vanish(n - 1, len);
            vstd::arithmetic::div_mod::lemma_small_mod((n - 1) as nat, len as nat);
        }
    } else {
        assert(np == len - 1) by {
            vstd::arithmetic::div_mod::lemma_small_mod((len - 1) as nat, len as nat);
        }
    }
    let pn = cycle_target(p, len, CycleDir::Next);
    if p + 1 < len {
        assert(pn == p + 1) by {
            vstd::arithmetic::div_mod::lemma_small_mod((p + 1) as nat, len as nat);
        }
    } else {
        assert(pn == 0) by {
            vstd::arithmetic::div_mod::lemma_mod_self_0(len);
        }
    }
}

/// The 0-based index of the 1-based position `n` in a list of `len` apps;
/// `None` for 0 or past the end. No wrapping.
pub fn jump_index(n: usize, len: usize) -> (r: Option<usize>)
    ensures
        r == if 1 <= n <= len {
            Some((n - 1) as usize)
        } else {
            None::<usize>
        },
{
    if n == 0 || n > len {
        None
    } else {
        Some(n - 1)
    }
}

/// After the app at `removed` left a list of `len_before` apps, the index
/// to activate: the app that was after it (it slides into its place), else
/// the new last one; `None` where it was the only one. No wrapping.
pub open spec fn neighbor_target(removed: int, len_before: int) -> Option<int> {
    if len_before <= 1 {
        None
    } else if removed + 1 < len_before {
        Some(removed)
    } else {
        Some(removed - 1)
    }
}

/// The index to activate after the app at `removed` left a list of
/// `len_before` apps (see [`neighbor_target`]).
pub fn neighbor_index(removed: usize, len_before: usize) -> (r: Option<usize>)
    requires
        len_before > 1 ==> removed + 1 <= usize::MAX,
    ensures
        r == match neighbor_target(removed as int, len_before as int) {
            Some(k) => Some(k as usize),
            None => None::<usize>,
        },
{
    if len_before <= 1 {
        return None;
    }
    if removed + 1 < len_before {
        Some(removed)
    } else {
        Some(removed - 1)
    }
}

/// Law: the neighbour chosen after a removal is an index of the list that
/// is left.
pub proof fn law_neighbor_in_range(removed: int, len_before: int)
    requires
        0 <= removed < len_before,
    ensures
        match neighbor_target(removed, len_before) {
            Some(k) => 0 <= k < len_before - 1,
            None => len_before == 1,
        },
{
}

/// Law: after the app at `removed` leaves the list `ids`, the neighbour
/// chosen in the list that is left is the app that was right after it, or,
/// where it was the last, the app right before it; there is none only where
/// it was the only app.
pub proof fn law_neighbor_is_adjacent<T>(ids: Seq<T>, removed: int)
    requires
        0 <= removed < ids.len(),
    ensures
        match neighbor_target(removed, ids.len() as int) {
            Some(k) => 0 <= k < ids.len() - 1 && ids.remove(removed)[k] == if removed + 1 < ids.len() {
                ids[removed + 1]
            } else {
                ids[removed - 1]
            },
            None => ids.len() == 1,
        },
{
}

/// The listener injected into every app webview: it catches the shell's key
/// bindings in the capture phase, before the page sees them, and forwards
/// the action to `handle_shortcut`.
pub const SHORTCUT_LISTENER_JS: &'static str = r#"
(function() {
  if (window.__webapps_shortcut_listener) return;
  window.__webapps_shortcut_listener = true;

  // (ctrl, shift, keyLower) -> action
  var TABLE = {
    "true|false|tab": "cycle-next",
    "true|true|tab": "cycle-prev",
    "true|false|b": "toggle-sidebar",
    "true|false|n": "add-app",
    "true|false|w": "sleep-app",
    "true|true|s": "space-switcher"
  };

  function actionFor(e) {
    var keyLower = (e.key || "").toLowerCase();
    // Ctrl+1..9 (no shift, no alt, no meta)
    if (e.ctrlKey && !e.metaKey && !e.altKey && !e.shiftKey
        && keyLower.length === 1 && keyLower >= "1" && keyLower <= "9") {
      return "jump-" + keyLower;
    }
    if (!e.ctrlKey || e.metaKey || e.altKey) return null;
    var k = "true|" + (e.shiftKey ? "true" : "false") + "|" + keyLower;
    return TABLE[k] || null;
  }

  document.addEventListener("keydown", function(e) {
    var action = actionFor(e);
    if (!action) return;
    e.preventDefault();
    e.stopImmediatePropagation();
    if (window.__TAURI_INTERNALS__) {
      try { window.__TAURI_INTERNALS__.invoke("handle_shortcut", { action: action }); }
      catch (err) { /* ignore */ }
    }
  }, true);
})();
"#;

/// The listener injected into every app webview (see
/// [`SHORTCUT_LISTENER_JS`]).
pub fn build_shortcut_listener_js() -> (r: &'static str)
    ensures
        r@ == SHORTCUT_LISTENER_JS@,
{
    SHORTCUT_LISTENER_JS
}

/// The ids of the apps of the active space, in order; `None` where the
/// active space does not exist.
pub open spec fn active_ids(state: AppState) -> Option<Seq<Seq<char>>> {
    match space_pos(state.spaces@, state.active_space_id@) {
        Some(k) => Some(state.spaces@[k].apps@.map_values(|a: crate::models::AppConfig| a.id@)),
        None => None,
    }
}

/// The active space's id, the ids of its apps in order, and the active
/// app's id; an error where the active space does not exist.
pub fn active_space_apps(state: &AppState) -> (r: Result<(String, Vec<String>, Option<String>), String>)
    ensures
        match active_ids(*state) {
            None => r matches Err(e) && e@ == space_not_found_msg(state.active_space_id@),
            Some(ids) => r matches Ok((sid, v, a)) && sid == state.active_space_id && texts(v@) == ids
                && a == state.active_app_id,
        },
{
    let k = match find_space(&state.spaces, state.active_space_id.as_str()) {
        Some(k) => k,
        None => {
            return Err(space_not_found(state.active_space_id.as_str()));
        },
    };
    let apps = &state.spaces[k].apps;
    let mut ids: Vec<String> = Vec::new();
    let mut i: usize = 0;
    while i < apps.len()
        invariant
            i <= apps.len(),
            texts(ids@) == apps@.take(i as int).map_values(|a: crate::models::AppConfig| a.id@),
        decreases apps.len() - i,
    {
        let ghost before = texts(ids@);
        let id = apps[i].id.clone();
        ids.push(id);
        assert(texts(ids@) =~= before.push(apps@[i as int].id@));
        assert(apps@.take(i + 1) =~= apps@.take(i as int).push(apps@[i as int]));
        assert(texts(ids@) =~= apps@.take(i + 1).map_values(|a: crate::models::AppConfig| a.id@));
        i = i + 1;
    }
    assert(apps@.take(apps.len() as int) =~= apps@);
    let active = match &state.active_app_id {
        Some(a) => Some(a.clone()),
        None => None,
    };
    Ok((state.active_space_id.clone(), ids, active))
}

/// What a shortcut action comes to.
pub enum ShortcutStep {
    /// Nothing to do.
    Nothing,
    /// Open app `app_id` of space `space_id`.
    OpenApp { space_id: String, app_id: String },
    /// Show or hide the sidebar.
    ToggleSidebar,
    /// Show the add-app dialog for space `space_id`.
    AddAppDialog { space_id: String },
    /// Put app `app_id` to sleep, then open the given app, if any.
    SleepApp { app_id: String, then_open: Option<(String, String)> },
    /// Show the space switcher.
    SpaceSwitcher,
}

/// A [`ShortcutStep`] by its characters.
pub enum StepView {
    Nothing,
    OpenApp(Seq<char>, Seq<char>),
    ToggleSidebar,
    AddAppDialog(Seq<char>),
    SleepApp(Seq<char>, Option<(Seq<char>, Seq<char>)>),
    SpaceSwitcher,
}

impl View for ShortcutStep {
    type V = StepView;

    open spec fn view(&self) -> StepView {
        match self {
            ShortcutStep::Nothing => StepView::Nothing,
            ShortcutStep::OpenApp { space_id, app_id } => StepView::OpenApp(space_id@, app_id@),
            ShortcutStep::ToggleSidebar => StepView::ToggleSidebar,
            ShortcutStep::AddAppDialog { space_id } => StepView::AddAppDialog(space_id@),
            ShortcutStep::SleepApp { app_id, then_open } => StepView::SleepApp(
                app_id@,
                match then_open {
                    Some((s, a)) => Some((s@, a@)),
                    None => None,
                },
            ),
            ShortcutStep::SpaceSwitcher => StepView::SpaceSwitcher,
        }
    }
}

/// The first position of `id` in `ids`.
pub open spec fn id_pos(ids: Seq<Seq<char>>, id: Seq<char>) -> Option<int> {
    first_index(ids, |x: Seq<char>| x == id)
}

/// `bad jump action: <action>`.
pub open spec fn bad_jump_msg(action: Seq<char>) -> Seq<char> {
    "bad jump action: "@ + action
}

/// What the shortcut `action` comes to in `state`:
/// - `cycle-next`/`cycle-prev` open the app after/before the active one in
///   the active space, wrapping; with no app active, the first/last app;
/// - `jump-<n>` opens the `n`-th app of the active space, if there is one;
/// - `toggle-sidebar`, `add-app` and `space-switcher` do what they say;
/// - `sleep-app` puts the active app to sleep and opens its neighbour in
///   the list without it: the app after it, else the one before it, else
///   none;
/// - anything else does nothing.
/// An error where the action needs the active space and it does not exist,
/// or a jump's number does not parse.
pub open spec fn shortcut_plan(state: AppState, action: Seq<char>) -> Result<StepView, Seq<char>> {
    let sid = state.active_space_id@;
    let missing = space_not_found_msg(sid);
    if action == "cycle-next"@ || action == "cycle-prev"@ {
        let dir = if action == "cycle-next"@ {
            CycleDir::Next
        } else {
            CycleDir::Prev
        };
        match active_ids(state) {
            None => Err(missing),
            Some(ids) => if ids.len() == 0 {
                Ok(StepView::Nothing)
            } else {
                let start = if dir == CycleDir::Next {
                    0
                } else {
                    ids.len() - 1
                };
                let idx = match state.active_app() {
                    Some(a) => match id_pos(ids, a) {
                        Some(c) => cycle_target(c, ids.len() as int, dir),
                        None => start,
                    },
                    None => start,
                };
                Ok(StepView::OpenApp(sid, ids[idx]))
            },
        }
    } else if starts_with(action, "jump-"@) {
        match parse_unsigned(action.skip(5), usize::MAX as nat) {
            None => Err(bad_jump_msg(action)),
            Some(n) => match active_ids(state) {
                None => Err(missing),
                Some(ids) => if 1 <= n <= ids.len() {
                    Ok(StepView::OpenApp(sid, ids[n - 1]))
                } else {
                    Ok(StepView::Nothing)
                },
            },
        }
    } else if action == "toggle-sidebar"@ {
        Ok(StepView::ToggleSidebar)
    } else if action == "add-app"@ {
        Ok(StepView::AddAppDialog(sid))
    } else if action == "sleep-app"@ {
        match active_ids(state) {
            None => Err(missing),
            Some(ids) => match state.active_app() {
                None => Ok(StepView::Nothing),
                Some(a) => match id_pos(ids, a) {
                    None => Ok(StepView::Nothing),
                    Some(p) => Ok(
                        StepView::SleepApp(
                            a,
                            match neighbor_target(p, ids.len() as int) {
                                Some(k) => Some((sid, ids.remove(p)[k])),
                                None => None,
                            },
                        ),
                    ),
                },
            },
        }
    } else if action == "space-switcher"@ {
        Ok(StepView::SpaceSwitcher)
    } else {
        Ok(StepView::Nothing)
    }
}

/// The first position of `id` among the strings of `v`.
fn position_of(v: &Vec<String>, id: &str) -> (r: Option<usize>)
    ensures
        match id_pos(texts(v@), id@) {
            Some(k) => r == Some(k as usize) && 0 <= k < v.len(),
            None => r is None,
        },
{
    let ghost t = texts(v@);
    let ghost p = |x: Seq<char>| x == id@;
    proof {
        lemma_first_index(t, p);
    }
    let mut i: usize = 0;
    while i < v.len()
        invariant
            i <= v.len(),
            t == texts(v@),
            p == (|x: Seq<char>| x == id@),
            forall|j: int| 0 <= j < i ==> !p(t[j]),
        decreases v.len() - i,
    {
        if str_eq(v[i].as_str(), id) {
            proof {
                crate::state::lemma_first_index_is(t, p, i as int);
            }
            return Some(i);
        }
        i = i + 1;
    }
    proof {
        lemma_first_index(t, p);
    }
    None
}

/// What the shortcut `action` comes to (see [`shortcut_plan`]); the caller
/// carries it out.
pub fn handle_shortcut(state: &AppState, action: &str) -> (r: Result<ShortcutStep, String>)
    requires
        forall|k: int| 0 <= k < state.spaces@.len() ==> #[trigger] state.spaces@[k].apps@.len() <= usize::MAX / 2,
    ensures
        match shortcut_plan(*state, action@) {
            Ok(v) => r matches Ok(step) && step@ == v,
            Err(m) => r matches Err(e) && e@ == m,
        },
{
    proof {
        reveal_strlit("jump-");
    }
    let is_next = str_eq(action, "cycle-next");
    if is_next || str_eq(action, "cycle-prev") {
        let dir = if is_next {
            CycleDir::Next
        } else {
            CycleDir::Prev
        };
        let (space_id, app_ids, active) = match active_space_apps(state) {
            Ok(t) => t,
            Err(e) => {
                return Err(e);
            },
        };
        let len = app_ids.len();
        if len == 0 {
            return Ok(ShortcutStep::Nothing);
        }
        proof {
            let k = space_pos(state.spaces@, state.active_space_id@).unwrap();
            lemma_first_index(state.spaces@, crate::state::has_space_id(state.active_space_id@));
            assert(texts(app_ids@).len() == state.spaces@[k].apps@.len());
        }
        let start = if is_next {
            0
        } else {
            len - 1
        };
        let idx = match &active {
            Some(a) => match position_of(&app_ids, a.as_str()) {
                Some(c) => match cycle_index(c, len, dir) {
                    Some(t) => t,
                    None => start,
                },
                None => start,
            },
            None => start,
        };
        proof {
            match active {
                Some(a) => {
                    if let Some(c) = id_pos(texts(app_ids@), a@) {
                        law_cycle_round_trip(c, len as int);
                    }
                },
                None => {},
            }
        }
        let target = app_ids[idx].clone();
        return Ok(ShortcutStep::OpenApp { space_id, app_id: target });
    }
    let chars = to_chars(action);
    let prefix = to_chars("jump-");
    if starts_with_exec(chars.as_slice(), prefix.as_slice()) {
        let rest = slice_to_vec(chars.as_slice(), 5, chars.len());
        assert(rest@ =~= action@.skip(5));
        let n = match parse_usize(rest.as_slice()) {
            Some(n) => n,
            None => {
                let mut e = String::from_str("bad jump action: ");
                e.append(action);
                return Err(e);
            },
        };
        let (space_id, app_ids, _active) = match active_space_apps(state) {
            Ok(t) => t,
            Err(e) => {
                return Err(e);
            },
        };
        return match jump_index(n, app_ids.len()) {
            Some(idx) => {
                let target = app_ids[idx].clone();
                Ok(ShortcutStep::OpenApp { space_id, app_id: target })
            },
            None => Ok(ShortcutStep::Nothing),
        };
    }
    if str_eq(action, "toggle-sidebar") {
        return Ok(ShortcutStep::ToggleSidebar);
    }
    if str_eq(action, "add-app") {
        return Ok(ShortcutStep::AddAppDialog { space_id: state.active_space_id.clone() });
    }
    if str_eq(action, "sleep-app") {
        let (space_id, app_ids, active) = match active_space_apps(state) {
            Ok(t) => t,
            Err(e) => {
                return Err(e);
            },
        };
        let active_id = match active {
            Some(a) => a,
            None => {
                return Ok(ShortcutStep::Nothing);
            },
        };
        let pos = match position_of(&app_ids, active_id.as_str()) {
            Some(p) => p,
            None => {
                return Ok(ShortcutStep::Nothing);
            },
        };
        let then_open = match neighbor_index(pos, app_ids.len()) {
            Some(k) => {
                // `k` indexes the list without the slept app: from `pos` on,
                // that list is the old one shifted down by one.
                let old_k = if k < pos {
                    k
                } else {
                    k + 1
                };
                proof {
                    assert(texts(app_ids@).remove(pos as int)[k as int] == texts(app_ids@)[old_k as int]);
                }
                Some((space_id, app_ids[old_k].clone()))
            },
            None => None,
        };
        return Ok(ShortcutStep::SleepApp { app_id: active_id, then_open });
    }
    if str_eq(action, "space-switcher") {
        return Ok(ShortcutStep::SpaceSwitcher);
    }
    Ok(ShortcutStep::Nothing)
}

/// Law: what each shortcut does. `toggle-sidebar`, `add-app` (for the
/// active space) and `space-switcher` do what they say whatever the state;
/// in an existing active space with apps `ids`, `cycle-next` opens the app
/// after the active one at `c` (the first after the last), `cycle-prev`
/// the one before it (the last before the first), and `jump-<n>` opens the
/// `n`-th app where there is one and does nothing otherwise; `sleep-app`
/// puts the active app to sleep and opens the app after it, else the one
/// before it, else none.
pub proof fn law_shortcut_actions(state: AppState, n: nat, c: int)
    ensures
        shortcut_plan(state, "toggle-sidebar"@) == Ok::<StepView, Seq<char>>(StepView::ToggleSidebar),
        shortcut_plan(state, "space-switcher"@) == Ok::<StepView, Seq<char>>(StepView::SpaceSwitcher),
        shortcut_plan(state, "add-app"@) == Ok::<StepView, Seq<char>>(
            StepView::AddAppDialog(state.active_space_id@),
        ),
        active_ids(state) matches Some(ids) ==> ({
            let sid = state.active_space_id@;
            &&& (0 <= c < ids.len() && state.active_app() == Some(ids[c]) && id_pos(ids, ids[c]) == Some(c))
                ==> {
                &&& shortcut_plan(state, "cycle-next"@) == Ok::<StepView, Seq<char>>(
                    StepView::OpenApp(sid, if c + 1 < ids.len() { ids[c + 1] } else { ids[0] }),
                )
                &&& shortcut_plan(state, "cycle-prev"@) == Ok::<StepView, Seq<char>>(
                    StepView::OpenApp(sid, if c > 0 { ids[c - 1] } else { ids[ids.len() - 1] }),
                )
                &&& shortcut_plan(state, "sleep-app"@) == Ok::<StepView, Seq<char>>(
                    StepView::SleepApp(
                        ids[c],
                        if c + 1 < ids.len() {
                            Some((sid, ids[c + 1]))
                        } else if ids.len() >= 2 {
                            Some((sid, ids[c - 1]))
                        } else {
                            None
                        },
                    ),
                )
            }
            &&& n <= usize::MAX ==> shortcut_plan(state, "jump-"@ + crate::numbers::decimal(n)) == Ok::<
                StepView,
                Seq<char>,
            >(if 1 <= n <= ids.len() { StepView::OpenApp(sid, ids[n - 1]) } else { StepView::Nothing })
        }),
{
    reveal_strlit("toggle-sidebar");
    reveal_strlit("space-switcher");
    reveal_strlit("add-app");
    reveal_strlit("cycle-next");
    reveal_strlit("cycle-prev");
    reveal_strlit("sleep-app");
    reveal_strlit("jump-");
    assert(!starts_with("toggle-sidebar"@, "jump-"@)) by {
        assert("toggle-sidebar"@.subrange(0, 5)[0] == 't');
    }
    assert(!starts_with("space-switcher"@, "jump-"@)) by {
        assert("space-switcher"@.subrange(0, 5)[0] == 's');
    }
    assert(!starts_with("add-app"@, "jump-"@)) by {
        assert("add-app"@.subrange(0, 5)[0] == 'a');
    }
    assert(!starts_with("sleep-app"@, "jump-"@)) by {
        assert("sleep-app"@.subrange(0, 5)[0] == 's');
    }
    assert("toggle-sidebar"@ != "cycle-next"@ && "toggle-sidebar"@ != "cycle-prev"@);
    assert("space-switcher"@ != "cycle-next"@ && "space-switcher"@ != "cycle-prev"@);
    assert("space-switcher"@ != "toggle-sidebar"@ && "space-switcher"@ != "add-app"@ && "space-switcher"@
        != "sleep-app"@);
    assert("add-app"@ != "cycle-next"@ && "add-app"@ != "cycle-prev"@ && "add-app"@ != "toggle-sidebar"@);
    assert("sleep-app"@ != "cycle-next"@ && "sleep-app"@ != "cycle-prev"@ && "sleep-app"@
        != "toggle-sidebar"@ && "sleep-app"@ != "add-app"@);
    match active_ids(state) {
        Some(ids) => {
            if 0 <= c < ids.len() {
                law_cycle_round_trip(c, ids.len() as int);
                law_neighbor_is_adjacent(ids, c);
            }
            let a = "jump-"@ + crate::numbers::decimal(n);
            assert(a.subrange(0, 5) =~= "jump-"@);
            assert(a.skip(5) =~= crate::numbers::decimal(n));
            assert(a[0] == 'j');
            assert(a != "cycle-next"@ && a != "cycle-prev"@);
            if n <= usize::MAX {
                crate::numbers::law_decimal_read_back(n, usize::MAX as nat);
            }
        },
        None => {},
    }
}

} // verus!
