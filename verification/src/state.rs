//! The application's state: configuration, spaces, the active space and app,
//! and the bookkeeping of app webviews, and the lookups over it.
use vstd::prelude::*;
use crate::models::{AppConfig, GlobalConfig, SpaceConfig};
use crate::text::str_eq;

verus! {

broadcast use vstd::string::group_string_axioms;

/// Which capture devices an app is currently using.
#[derive(PartialEq, Eq, Debug, Clone, Copy, Structural)]
pub struct ActiveCaptures {
    pub camera: bool,
    pub microphone: bool,
}

impl Default for ActiveCaptures {
    fn default() -> (r: Self)
        ensures
            !r.camera && !r.microphone,
    {
        ActiveCaptures { camera: false, microphone: false }
    }
}

/// A camera/microphone request that waits for the user's answer: which
/// devices the page asked for.
#[derive(PartialEq, Eq, Debug, Clone, Copy, Structural)]
pub struct PendingMediaRequest {
    pub wants_camera: bool,
    pub wants_microphone: bool,
}

/// The state the commands work on.
pub struct AppState {
    pub global_config: GlobalConfig,
    pub spaces: Vec<SpaceConfig>,
    pub active_space_id: String,
    pub active_app_id: Option<String>,
    /// Whether the sidebar webview is shown.
    pub sidebar_visible: bool,
    /// App id -> label of its live webview; each app id at most once.
    pub webview_labels: Vec<(String, String)>,
    /// (space id, app id) of the most recent app context-menu right-click.
    pub context_menu_target: Option<(String, String)>,
    /// Space id of the most recent space context-menu right-click.
    pub space_context_menu_target: Option<String>,
    /// Apps whose webviews were destroyed to save memory but that are still
    /// open in the sidebar; each app id at most once.
    pub slept_apps: Vec<String>,
    /// App id -> the capture devices it is using; each app id at most once.
    pub active_captures: Vec<(String, ActiveCaptures)>,
    /// App id -> the media request that waits for the user's answer; each
    /// app id at most once.
    pub pending_media_requests: Vec<(String, PendingMediaRequest)>,
}

/// The index of the first element of `s` at or after `i` that satisfies `p`.
pub open spec fn first_index_from<T>(s: Seq<T>, p: spec_fn(T) -> bool, i: int) -> Option<int>
    decreases s.len() - i,
{
    if i < 0 || i >= s.len() {
        None
    } else if p(s[i]) {
        Some(i)
    } else {
        first_index_from(s, p, i + 1)
    }
}

/// The index of the first element of `s` that satisfies `p`.
pub open spec fn first_index<T>(s: Seq<T>, p: spec_fn(T) -> bool) -> Option<int> {
    first_index_from(s, p, 0)
}

/// Lemma: what `first_index_from` finds.
pub proof fn lemma_first_index_from<T>(s: Seq<T>, p: spec_fn(T) -> bool, i: int)
    requires
        0 <= i,
    ensures
        match first_index_from(s, p, i) {
            Some(k) => i <= k < s.len() && p(s[k]) && forall|j: int| i <= j < k ==> !p(s[j]),
            None => forall|j: int| i <= j < s.len() ==> !p(s[j]),
        },
    decreases s.len() - i,
{
    if i < s.len() && !p(s[i]) {
        lemma_first_index_from(s, p, i + 1);
    }
}

/// Lemma: what `first_index` finds.
pub proof fn lemma_first_index<T>(s: Seq<T>, p: spec_fn(T) -> bool)
    ensures
        match first_index(s, p) {
            Some(k) => 0 <= k < s.len() && p(s[k]) && forall|j: int| 0 <= j < k ==> !p(s[j]),
            None => forall|j: int| 0 <= j < s.len() ==> !p(s[j]),
        },
{
    lemma_first_index_from(s, p, 0);
}

/// Lemma: `first_index` is determined by the first element that satisfies `p`.
pub proof fn lemma_first_index_is<T>(s: Seq<T>, p: spec_fn(T) -> bool, k: int)
    requires
        0 <= k < s.len(),
        p(s[k]),
        forall|j: int| 0 <= j < k ==> !p(s[j]),
    ensures
        first_index(s, p) == Some(k),
{
    lemma_first_index(s, p);
    match first_index(s, p) {
        Some(m) => {
            if m < k {
            } else if m > k {
            }
        },
        None => {},
    }
}

/// Lemma: two sequences whose elements satisfy their predicates alike have
/// their first satisfying element at the same index.
pub proof fn lemma_first_index_congruent<T, U>(s: Seq<T>, p: spec_fn(T) -> bool, t: Seq<U>, q: spec_fn(U) -> bool)
    requires
        s.len() == t.len(),
        forall|i: int| 0 <= i < s.len() ==> p(s[i]) == q(t[i]),
    ensures
        first_index(s, p) == first_index(t, q),
{
    lemma_first_index(s, p);
    lemma_first_index(t, q);
    match (first_index(s, p), first_index(t, q)) {
        (Some(a), Some(b)) => {
            if a < b {
                assert(p(s[a]) == q(t[a]));
            } else if b < a {
                assert(p(s[b]) == q(t[b]));
            }
        },
        (Some(a), None) => {
            assert(p(s[a]) == q(t[a]));
        },
        (None, Some(b)) => {
            assert(p(s[b]) == q(t[b]));
        },
        (None, None) => {},
    }
}

/// The space with id `id`.
pub open spec fn has_space_id(id: Seq<char>) -> spec_fn(SpaceConfig) -> bool {
    |s: SpaceConfig| s.space.id@ == id
}

/// The app with id `id`.
pub open spec fn has_app_id(id: Seq<char>) -> spec_fn(AppConfig) -> bool {
    |a: AppConfig| a.id@ == id
}

/// The entry for app id `id` in a list keyed by app id.
pub open spec fn has_key<V>(id: Seq<char>) -> spec_fn((String, V)) -> bool {
    |e: (String, V)| e.0@ == id
}

/// The first space with id `id`.
pub open spec fn space_pos(spaces: Seq<SpaceConfig>, id: Seq<char>) -> Option<int> {
    first_index(spaces, has_space_id(id))
}

/// The first app with id `id`.
pub open spec fn app_pos(apps: Seq<AppConfig>, id: Seq<char>) -> Option<int> {
    first_index(apps, has_app_id(id))
}

/// The first entry with key `id`.
pub open spec fn key_pos<V>(entries: Seq<(String, V)>, id: Seq<char>) -> Option<int> {
    first_index(entries, has_key::<V>(id))
}

/// The index of the first space with id `id`.
pub fn find_space(spaces: &Vec<SpaceConfig>, id: &str) -> (r: Option<usize>)
    ensures
        space_pos(spaces@, id@) == match r {
            Some(k) => Some(k as int),
            None => None::<int>,
        },
        match r {
            Some(k) => k < spaces.len() && spaces@[k as int].space.id@ == id@,
            None => forall|j: int| 0 <= j < spaces.len() ==> spaces@[j].space.id@ != id@,
        },
{
    proof {
        lemma_first_index(spaces@, has_space_id(id@));
    }
    let mut i: usize = 0;
    while i < spaces.len()
        invariant
            i <= spaces.len(),
            space_pos(spaces@, id@) == first_index_from(spaces@, has_space_id(id@), i as int),
        decreases spaces.len() - i,
    {
        if str_eq(spaces[i].space.id.as_str(), id) {
            return Some(i);
        }
        i = i + 1;
    }
    None
}

/// The index of the first app with id `id`.
pub fn find_app(apps: &Vec<AppConfig>, id: &str) -> (r: Option<usize>)
    ensures
        app_pos(apps@, id@) == match r {
            Some(k) => Some(k as int),
            None => None::<int>,
        },
        match r {
            Some(k) => k < apps.len() && apps@[k as int].id@ == id@,
            None => forall|j: int| 0 <= j < apps.len() ==> apps@[j].id@ != id@,
        },
{
    proof {
        lemma_first_index(apps@, has_app_id(id@));
    }
    let mut i: usize = 0;
    while i < apps.len()
        invariant
            i <= apps.len(),
            app_pos(apps@, id@) == first_index_from(apps@, has_app_id(id@), i as int),
        decreases apps.len() - i,
    {
        if str_eq(apps[i].id.as_str(), id) {
            return Some(i);
        }
        i = i + 1;
    }
    None
}

/// The index of the first entry with key `id`.
pub fn find_key<V>(entries: &Vec<(String, V)>, id: &str) -> (r: Option<usize>)
    ensures
        key_pos(entries@, id@) == match r {
            Some(k) => Some(k as int),
            None => None::<int>,
        },
        match r {
            Some(k) => k < entries.len() && entries@[k as int].0@ == id@,
            None => forall|j: int| 0 <= j < entries.len() ==> entries@[j].0@ != id@,
        },
{
    proof {
        lemma_first_index(entries@, has_key::<V>(id@));
    }
    let mut i: usize = 0;
    while i < entries.len()
        invariant
            i <= entries.len(),
            key_pos(entries@, id@) == first_index_from(entries@, has_key::<V>(id@), i as int),
        decreases entries.len() - i,
    {
        if str_eq(entries[i].0.as_str(), id) {
            return Some(i);
        }
        i = i + 1;
    }
    None
}

/// The position of `id` in a list of strings.
pub open spec fn has_text(id: Seq<char>) -> spec_fn(String) -> bool {
    |s: String| s@ == id
}

/// The first position of `id` in `v`.
pub open spec fn string_pos(v: Seq<String>, id: Seq<char>) -> Option<int> {
    first_index(v, has_text(id))
}

/// The first position of `id` in `v`.
pub fn find_string(v: &Vec<String>, id: &str) -> (r: Option<usize>)
    ensures
        string_pos(v@, id@) == match r {
            Some(k) => Some(k as int),
            None => None::<int>,
        },
        match r {
            Some(k) => k < v.len() && v@[k as int]@ == id@,
            None => forall|j: int| 0 <= j < v.len() ==> v@[j]@ != id@,
        },
{
    proof {
        lemma_first_index(v@, has_text(id@));
    }
    let mut i: usize = 0;
    while i < v.len()
        invariant
            i <= v.len(),
            string_pos(v@, id@) == first_index_from(v@, has_text(id@), i as int),
        decreases v.len() - i,
    {
        if str_eq(v[i].as_str(), id) {
            return Some(i);
        }
        i = i + 1;
    }
    None
}

/// No two entries share a key.
pub open spec fn keys_unique<V>(entries: Seq<(String, V)>) -> bool {
    forall|i: int, j: int| 0 <= i < j < entries.len() ==> entries[i].0@ != entries[j].0@
}

/// No string occurs twice.
pub open spec fn strings_unique(v: Seq<String>) -> bool {
    forall|i: int, j: int| 0 <= i < j < v.len() ==> v[i]@ != v[j]@
}

/// The text of a list of strings.
pub open spec fn texts(v: Seq<String>) -> Seq<Seq<char>> {
    v.map_values(|s: String| s@)
}

/// Whether no two entries share a key.
pub fn keys_distinct<V>(v: &Vec<(String, V)>) -> (r: bool)
    ensures
        r == keys_unique(v@),
{
    let mut i: usize = 0;
    while i < v.len()
        invariant
            i <= v.len(),
            forall|a: int, b: int| 0 <= a < b < v@.len() && a < i ==> v@[a].0@ != v@[b].0@,
        decreases v.len() - i,
    {
        let mut j: usize = i + 1;
        while j < v.len()
            invariant
                i < j <= v.len(),
                forall|a: int, b: int| 0 <= a < b < v@.len() && a < i ==> v@[a].0@ != v@[b].0@,
                forall|b: int| i < b < j ==> v@[i as int].0@ != v@[b].0@,
            decreases v.len() - j,
        {
            if str_eq(v[i].0.as_str(), v[j].0.as_str()) {
                return false;
            }
            j = j + 1;
        }
        i = i + 1;
    }
    true
}

/// Whether no string occurs twice.
pub fn texts_distinct(v: &Vec<String>) -> (r: bool)
    ensures
        r == strings_unique(v@),
{
    let mut i: usize = 0;
    while i < v.len()
        invariant
            i <= v.len(),
            forall|a: int, b: int| 0 <= a < b < v@.len() && a < i ==> v@[a]@ != v@[b]@,
        decreases v.len() - i,
    {
        let mut j: usize = i + 1;
        while j < v.len()
            invariant
                i < j <= v.len(),
                forall|a: int, b: int| 0 <= a < b < v@.len() && a < i ==> v@[a]@ != v@[b]@,
                forall|b: int| i < b < j ==> v@[i as int]@ != v@[b]@,
            decreases v.len() - j,
        {
            if str_eq(v[i].as_str(), v[j].as_str()) {
                return false;
            }
            j = j + 1;
        }
        i = i + 1;
    }
    true
}

/// The value stored under key `id`.
pub open spec fn lookup<V>(entries: Seq<(String, V)>, id: Seq<char>) -> Option<V> {
    match key_pos(entries, id) {
        Some(k) => Some(entries[k].1),
        None => None,
    }
}

/// Lemma: in a list whose keys are unique, an entry is the one found for its
/// key.
pub proof fn lemma_key_pos_unique<V>(s: Seq<(String, V)>, j: int)
    requires
        keys_unique(s),
        0 <= j < s.len(),
    ensures
        key_pos(s, s[j].0@) == Some(j),
        lookup(s, s[j].0@) == Some(s[j].1),
{
    let p = has_key::<V>(s[j].0@);
    assert forall|i: int| 0 <= i < j implies !p(s[i]) by {}
    lemma_first_index_is(s, p, j);
}

/// Lemma: a key is found exactly when some entry has it.
pub proof fn lemma_key_pos_none<V>(s: Seq<(String, V)>, id: Seq<char>)
    ensures
        key_pos(s, id) is None <==> forall|j: int| 0 <= j < s.len() ==> s[j].0@ != id,
{
    lemma_first_index(s, has_key::<V>(id));
    if key_pos(s, id) is None {
    } else {
        let k = key_pos(s, id).unwrap();
        assert(s[k].0@ == id);
    }
}

/// Removes the entry with key `id`, if there is one, and returns it.
pub fn remove_key<V>(v: &mut Vec<(String, V)>, id: &str) -> (r: Option<(String, V)>)
    requires
        keys_unique(old(v)@),
    ensures
        keys_unique(final(v)@),
        match r {
            Some(e) => e.0@ == id@ && lookup(old(v)@, id@) == Some(e.1),
            None => lookup(old(v)@, id@) is None,
        },
        forall|x: Seq<char>| #[trigger]
            lookup(final(v)@, x) == if x == id@ {
                None
            } else {
                lookup(old(v)@, x)
            },
{
    match find_key(v, id) {
        Some(k) => {
            let ghost s = v@;
            let e = v.remove(k);
            let ghost t = v@;
            proof {
                assert(t =~= s.remove(k as int));
                assert(keys_unique(t)) by {
                    assert forall|i: int, j: int| 0 <= i < j < t.len() implies t[i].0@ != t[j].0@ by {
                        let i0 = if i < k { i } else { i + 1 };
                        let j0 = if j < k { j } else { j + 1 };
                        assert(t[i] == s[i0]);
                        assert(t[j] == s[j0]);
                    }
                }
                assert forall|x: Seq<char>| #[trigger]
                    lookup(t, x) == if x == id@ {
                        None
                    } else {
                        lookup(s, x)
                    } by {
                    lemma_key_pos_none(s, x);
                    lemma_key_pos_none(t, x);
                    if x == id@ {
                        assert forall|j: int| 0 <= j < t.len() implies t[j].0@ != x by {
                            let j0 = if j < k { j } else { j + 1 };
                            assert(t[j] == s[j0]);
                            lemma_key_pos_unique(s, j0);
                        }
                    } else if key_pos(s, x) is Some {
                        let j0 = key_pos(s, x).unwrap();
                        lemma_first_index(s, has_key::<V>(x));
                        let j = if j0 < k { j0 } else { j0 - 1 };
                        assert(j0 != k);
                        assert(t[j] == s[j0]);
                        lemma_key_pos_unique(s, j0);
                        lemma_key_pos_unique(t, j);
                    } else {
                        assert forall|j: int| 0 <= j < t.len() implies t[j].0@ != x by {
                            let j0 = if j < k { j } else { j + 1 };
                            assert(t[j] == s[j0]);
                        }
                    }
                }
                lemma_key_pos_unique(s, k as int);
            }
            Some(e)
        },
        None => {
            proof {
                lemma_key_pos_none(v@, id@);
            }
            None
        },
    }
}

/// Stores `val` under key `id`, replacing the value stored there, if any.
pub fn set_key<V>(v: &mut Vec<(String, V)>, id: String, val: V)
    requires
        keys_unique(old(v)@),
    ensures
        keys_unique(final(v)@),
        forall|x: Seq<char>| #[trigger]
            lookup(final(v)@, x) == if x == id@ {
                Some(val)
            } else {
                lookup(old(v)@, x)
            },
{
    let ghost s = v@;
    match find_key(v, id.as_str()) {
        Some(k) => {
            let ghost idv = id@;
            v.set(k, (id, val));
            let ghost t = v@;
            proof {
                assert(t =~= s.update(k as int, t[k as int]));
                assert(t[k as int].0@ == idv);
                assert(keys_unique(t)) by {
                    assert forall|i: int, j: int| 0 <= i < j < t.len() implies t[i].0@ != t[j].0@ by {
                        assert(t[i].0@ == s[i].0@);
                        assert(t[j].0@ == s[j].0@);
                    }
                }
                assert forall|x: Seq<char>| #[trigger]
                    lookup(t, x) == if x == idv {
                        Some(val)
                    } else {
                        lookup(s, x)
                    } by {
                    lemma_key_pos_none(s, x);
                    lemma_key_pos_none(t, x);
                    if x == idv {
                        lemma_key_pos_unique(t, k as int);
                    } else if key_pos(s, x) is Some {
                        let j = key_pos(s, x).unwrap();
                        lemma_first_index(s, has_key::<V>(x));
                        lemma_key_pos_unique(s, j);
                        assert(t[j] == s[j]);
                        lemma_key_pos_unique(t, j);
                    } else {
                        assert forall|j: int| 0 <= j < t.len() implies t[j].0@ != x by {
                            if j != k {
                                assert(t[j] == s[j]);
                            }
                        }
                    }
                }
            }
        },
        None => {
            let ghost idv = id@;
            v.push((id, val));
            let ghost t = v@;
            proof {
                lemma_key_pos_none(s, idv);
                assert(t =~= s.push(t[s.len() as int]));
                assert(keys_unique(t)) by {
                    assert forall|i: int, j: int| 0 <= i < j < t.len() implies t[i].0@ != t[j].0@ by {
                        assert(t[i] == s[i]);
                        if j < s.len() {
                            assert(t[j] == s[j]);
                        }
                    }
                }
                assert forall|x: Seq<char>| #[trigger]
                    lookup(t, x) == if x == idv {
                        Some(val)
                    } else {
                        lookup(s, x)
                    } by {
                    lemma_key_pos_none(s, x);
                    lemma_key_pos_none(t, x);
                    if x == idv {
                        lemma_key_pos_unique(t, s.len() as int);
                    } else if key_pos(s, x) is Some {
                        let j = key_pos(s, x).unwrap();
                        lemma_first_index(s, has_key::<V>(x));
                        lemma_key_pos_unique(s, j);
                        assert(t[j] == s[j]);
                        lemma_key_pos_unique(t, j);
                    } else {
                        assert forall|j: int| 0 <= j < t.len() implies t[j].0@ != x by {
                            if j < s.len() {
                                assert(t[j] == s[j]);
                            }
                        }
                    }
                }
            }
        },
    }
}

/// `id` is one of the strings of `v`.
pub open spec fn holds_text(v: Seq<String>, id: Seq<char>) -> bool {
    exists|j: int| 0 <= j < v.len() && v[j]@ == id
}

/// Removes `id` from a list of strings that holds each string at most once.
pub fn remove_text(v: &mut Vec<String>, id: &str) -> (r: bool)
    requires
        strings_unique(old(v)@),
    ensures
        strings_unique(final(v)@),
        r == holds_text(old(v)@, id@),
        forall|x: Seq<char>| #[trigger]
            holds_text(final(v)@, x) == (x != id@ && holds_text(old(v)@, x)),
{
    match find_string(v, id) {
        Some(k) => {
            let ghost s = v@;
            let _ = v.remove(k);
            let ghost t = v@;
            proof {
                assert(t =~= s.remove(k as int));
                assert forall|i: int, j: int| 0 <= i < j < t.len() implies t[i]@ != t[j]@ by {
                    let i0 = if i < k { i } else { i + 1 };
                    let j0 = if j < k { j } else { j + 1 };
                    assert(t[i] == s[i0]);
                    assert(t[j] == s[j0]);
                }
                assert forall|x: Seq<char>| #[trigger]
                    holds_text(t, x) == (x != id@ && holds_text(s, x)) by {
                    if holds_text(t, x) {
                        let j = choose|j: int| 0 <= j < t.len() && t[j]@ == x;
                        let j0 = if j < k { j } else { j + 1 };
                        assert(t[j] == s[j0]);
                        assert(j0 != k);
                    }
                    if x != id@ && holds_text(s, x) {
                        let j0 = choose|j: int| 0 <= j < s.len() && s[j]@ == x;
                        assert(j0 != k);
                        let j = if j0 < k { j0 } else { j0 - 1 };
                        assert(t[j] == s[j0]);
                    }
                }
                assert(s[k as int]@ == id@);
            }
            true
        },
        None => false,
    }
}

/// Adds `id` to a list of strings that holds each string at most once,
/// unless it is there already.
pub fn insert_text(v: &mut Vec<String>, id: String)
    requires
        strings_unique(old(v)@),
    ensures
        strings_unique(final(v)@),
        forall|x: Seq<char>| #[trigger]
            holds_text(final(v)@, x) == (x == id@ || holds_text(old(v)@, x)),
{
    match find_string(v, id.as_str()) {
        Some(k) => {},
        None => {
            let ghost s = v@;
            let ghost idv = id@;
            v.push(id);
            let ghost t = v@;
            proof {
                assert(t =~= s.push(t[s.len() as int]));
                assert forall|i: int, j: int| 0 <= i < j < t.len() implies t[i]@ != t[j]@ by {
                    assert(t[i] == s[i]);
                    if j < s.len() {
                        assert(t[j] == s[j]);
                    }
                }
                assert forall|x: Seq<char>| #[trigger]
                    holds_text(t, x) == (x == idv || holds_text(s, x)) by {
                    if holds_text(t, x) {
                        let j = choose|j: int| 0 <= j < t.len() && t[j]@ == x;
                        if j < s.len() {
                            assert(t[j] == s[j]);
                        }
                    }
                    if x == idv {
                        assert(t[s.len() as int]@ == x);
                    }
                    if holds_text(s, x) {
                        let j = choose|j: int| 0 <= j < s.len() && s[j]@ == x;
                        assert(t[j] == s[j]);
                    }
                }
            }
        },
    }
}

impl AppState {
    /// The state's bookkeeping is well formed: the webview-label, slept-app
    /// and capture lists hold each app at most once.
    pub open spec fn wf(&self) -> bool {
        &&& keys_unique(self.webview_labels@)
        &&& strings_unique(self.slept_apps@)
        &&& keys_unique(self.active_captures@)
        &&& keys_unique(self.pending_media_requests@)
    }

    /// The label of app `id`'s live webview, if it has one.
    pub open spec fn label_of(&self, id: Seq<char>) -> Option<Seq<char>> {
        match lookup(self.webview_labels@, id) {
            Some(l) => Some(l@),
            None => None,
        }
    }

    /// The app ids that have a live webview.
    pub open spec fn open_apps(&self) -> Set<Seq<char>> {
        Set::new(|id: Seq<char>| key_pos(self.webview_labels@, id) is Some)
    }

    /// App `id` is asleep.
    pub open spec fn is_slept(&self, id: Seq<char>) -> bool {
        holds_text(self.slept_apps@, id)
    }

    /// The active app's id.
    pub open spec fn active_app(&self) -> Option<Seq<char>> {
        match self.active_app_id {
            Some(a) => Some(a@),
            None => None,
        }
    }

    /// The capture devices app `id` is recorded as using.
    pub open spec fn captures_of(&self, id: Seq<char>) -> Option<ActiveCaptures> {
        lookup(self.active_captures@, id)
    }

    /// The media request of app `id` that waits for the user's answer.
    pub open spec fn pending_of(&self, id: Seq<char>) -> Option<PendingMediaRequest> {
        lookup(self.pending_media_requests@, id)
    }

    /// Everything but the spaces is as in `other`.
    pub open spec fn same_but_spaces(&self, other: &AppState) -> bool {
        &&& self.global_config == other.global_config
        &&& self.same_but_config_and_spaces(other)
    }

    /// Everything but the configuration and the spaces is as in `other`.
    pub open spec fn same_but_config_and_spaces(&self, other: &AppState) -> bool {
        &&& self.active_space_id == other.active_space_id
        &&& self.active_app_id == other.active_app_id
        &&& self.same_bookkeeping(other)
    }

    /// Everything but the configuration, the spaces and the waiting media
    /// requests is as in `other`.
    pub open spec fn same_but_config_and_spaces_except_pending(&self, other: &AppState) -> bool {
        &&& self.active_space_id == other.active_space_id
        &&& self.active_app_id == other.active_app_id
        &&& self.sidebar_visible == other.sidebar_visible
        &&& self.webview_labels == other.webview_labels
        &&& self.context_menu_target == other.context_menu_target
        &&& self.space_context_menu_target == other.space_context_menu_target
        &&& self.slept_apps == other.slept_apps
        &&& self.active_captures == other.active_captures
    }

    /// The sidebar flag, the webview bookkeeping and the context-menu
    /// targets are as in `other`.
    pub open spec fn same_bookkeeping(&self, other: &AppState) -> bool {
        &&& self.sidebar_visible == other.sidebar_visible
        &&& self.webview_labels == other.webview_labels
        &&& self.context_menu_target == other.context_menu_target
        &&& self.space_context_menu_target == other.space_context_menu_target
        &&& self.slept_apps == other.slept_apps
        &&& self.active_captures == other.active_captures
        &&& self.pending_media_requests == other.pending_media_requests
    }

    /// Whether the bookkeeping is well formed (see [`AppState::wf`]).
    pub fn is_well_formed(&self) -> (r: bool)
        ensures
            r == self.wf(),
    {
        keys_distinct(&self.webview_labels) && texts_distinct(&self.slept_apps) && keys_distinct(
            &self.active_captures,
        ) && keys_distinct(&self.pending_media_requests)
    }

    /// A fresh state: the given configuration and spaces, the `general`
    /// space active, no app active, no webviews.
    pub fn new(global_config: GlobalConfig, spaces: Vec<SpaceConfig>) -> (r: AppState)
        ensures
            r.wf(),
            r.global_config == global_config,
            r.spaces == spaces,
            r.active_space_id@ == "general"@,
            r.active_app_id is None,
            r.sidebar_visible == global_config.general.sidebar_visible,
            r.webview_labels@.len() == 0,
            r.context_menu_target is None,
            r.space_context_menu_target is None,
            r.slept_apps@.len() == 0,
            r.active_captures@.len() == 0,
            r.pending_media_requests@.len() == 0,
    {
        let sidebar_visible = global_config.general.sidebar_visible;
        AppState {
            global_config,
            spaces,
            active_space_id: String::from_str("general"),
            active_app_id: None,
            sidebar_visible,
            webview_labels: Vec::new(),
            context_menu_target: None,
            space_context_menu_target: None,
            slept_apps: Vec::new(),
            active_captures: Vec::new(),
            pending_media_requests: Vec::new(),
        }
    }
}

} // verus!

verus! {

/// `Space '<id>' not found`.
pub open spec fn space_not_found_msg(id: Seq<char>) -> Seq<char> {
    "Space '"@ + id + "' not found"@
}

/// `App '<id>' not found`.
pub open spec fn app_not_found_msg(id: Seq<char>) -> Seq<char> {
    "App '"@ + id + "' not found"@
}

/// The message for a space that does not exist.
pub fn space_not_found(id: &str) -> (r: String)
    ensures
        r@ == space_not_found_msg(id@),
{
    let mut s = String::from_str("Space '");
    s.append(id);
    s.append("' not found");
    s
}

/// The message for an app that does not exist.
pub fn app_not_found(id: &str) -> (r: String)
    ensures
        r@ == app_not_found_msg(id@),
{
    let mut s = String::from_str("App '");
    s.append(id);
    s.append("' not found");
    s
}

} // verus!
