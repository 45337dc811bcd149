//! WebKitGTK renderer self-heal: an escalation ladder of render tiers.
//!
//! Each launch records a `probing:<tier>` marker; once the app has run long
//! enough it rewrites the marker to `ok:<tier>`. A launch that finds a stale
//! `probing:<tier>` marker (the previous launch crashed or froze) steps one
//! tier down. A machine that never crashes stays at `Full`.
//!
//!   Full           GPU compositing on, DMA-BUF renderer on (the default)
//!   NoDmabuf       DMA-BUF renderer off
//!   NoCompositing  accelerated compositing off as well, X11 preferred
//!
//! This module decides; reading the environment and the marker file, setting
//! environment variables and writing the marker are done by the caller.
use vstd::prelude::*;
use crate::text::{lemma_find_single, lemma_trim_noop, chars_eq_str, from_chars, split_once, split_once_exec, str_eq, to_chars, trim, trim_str};

verus! {

broadcast use vstd::string::group_string_axioms;

/// The file, inside the configuration directory, that holds the marker.
pub const MARKER_FILENAME: &'static str = "dmabuf-mode";

/// How much of the GPU path WebKitGTK may use this launch, ordered from the
/// least conservative (`Full`) to the most (`NoCompositing`).
#[derive(PartialEq, Eq, Debug, Clone, Copy, Structural)]
pub enum RenderTier {
    Full,
    NoDmabuf,
    NoCompositing,
}

impl RenderTier {
    /// The marker spelling of a tier.
    pub open spec fn name(self) -> Seq<char> {
        match self {
            RenderTier::Full => "full"@,
            RenderTier::NoDmabuf => "nodmabuf"@,
            RenderTier::NoCompositing => "nocompositing"@,
        }
    }

    /// The tier spelled `s`, if any (no trimming).
    pub open spec fn parse(s: Seq<char>) -> Option<RenderTier> {
        if s == "full"@ {
            Some(RenderTier::Full)
        } else if s == "nodmabuf"@ {
            Some(RenderTier::NoDmabuf)
        } else if s == "nocompositing"@ {
            Some(RenderTier::NoCompositing)
        } else {
            None
        }
    }

    /// The next tier down; `NoCompositing` is the floor.
    pub open spec fn next(self) -> RenderTier {
        match self {
            RenderTier::Full => RenderTier::NoDmabuf,
            RenderTier::NoDmabuf => RenderTier::NoCompositing,
            RenderTier::NoCompositing => RenderTier::NoCompositing,
        }
    }

    /// Position on the ladder: 0 for `Full`, 2 for `NoCompositing`.
    pub open spec fn rank(self) -> int {
        match self {
            RenderTier::Full => 0,
            RenderTier::NoDmabuf => 1,
            RenderTier::NoCompositing => 2,
        }
    }

    /// The marker spelling of this tier.
    pub fn as_str(self) -> (r: &'static str)
        ensures
            r@ == self.name(),
    {
        match self {
            RenderTier::Full => "full",
            RenderTier::NoDmabuf => "nodmabuf",
            RenderTier::NoCompositing => "nocompositing",
        }
    }

    /// The tier spelled exactly `s`.
    pub fn from_str(s: &str) -> (r: Option<RenderTier>)
        ensures
            r == RenderTier::parse(s@),
    {
        let v = to_chars(s);
        Self::from_chars(v.as_slice())
    }

    fn from_chars(v: &[char]) -> (r: Option<RenderTier>)
        ensures
            r == RenderTier::parse(v@),
    {
        if chars_eq_str(v, "full") {
            Some(RenderTier::Full)
        } else if chars_eq_str(v, "nodmabuf") {
            Some(RenderTier::NoDmabuf)
        } else if chars_eq_str(v, "nocompositing") {
            Some(RenderTier::NoCompositing)
        } else {
            None
        }
    }

    /// The next tier down (more conservative); `NoCompositing` is the floor.
    pub fn escalate(self) -> (r: RenderTier)
        ensures
            r == self.next(),
    {
        match self {
            RenderTier::Full => RenderTier::NoDmabuf,
            RenderTier::NoDmabuf => RenderTier::NoCompositing,
            RenderTier::NoCompositing => RenderTier::NoCompositing,
        }
    }
}

/// The text of an optional `&str`.
pub open spec fn opt_view(o: Option<&str>) -> Option<Seq<char>> {
    match o {
        Some(s) => Some(s@),
        None => None,
    }
}

/// The meaning of a marker: `(was_probing, tier)`. The two-state markers of
/// earlier versions (`probing`, `ok`, `disabled`) are still understood.
pub open spec fn marker_meaning(marker: Option<Seq<char>>) -> Option<(bool, RenderTier)> {
    match marker {
        None => None,
        Some(m) => {
            let raw = trim(m);
            if raw == "probing"@ {
                Some((true, RenderTier::Full))
            } else if raw == "ok"@ {
                Some((false, RenderTier::Full))
            } else if raw == "disabled"@ {
                Some((false, RenderTier::NoDmabuf))
            } else {
                match split_once(raw, ':') {
                    None => None,
                    Some((state, tier)) => match RenderTier::parse(tier) {
                        None => None,
                        Some(t) => if state == "probing"@ {
                            Some((true, t))
                        } else if state == "ok"@ {
                            Some((false, t))
                        } else {
                            None
                        },
                    },
                }
            }
        },
    }
}

/// The tier for a launch: an override wins; otherwise a stale `probing`
/// marker steps one tier down, an `ok` marker holds, and anything else
/// starts at `Full`.
pub open spec fn tier_for(override_tier: Option<RenderTier>, marker: Option<Seq<char>>) -> RenderTier {
    match override_tier {
        Some(t) => t,
        None => match marker_meaning(marker) {
            Some((true, t)) => t.next(),
            Some((false, t)) => t,
            None => RenderTier::Full,
        },
    }
}

/// Parses a marker into `(was_probing, tier)`.
pub fn parse_marker(marker: Option<&str>) -> (r: Option<(bool, RenderTier)>)
    ensures
        r == marker_meaning(opt_view(marker)),
{
    let m = match marker {
        None => return None,
        Some(m) => m,
    };
    let raw = trim_str(m);
    if chars_eq_str(raw.as_slice(), "probing") {
        return Some((true, RenderTier::Full));
    }
    if chars_eq_str(raw.as_slice(), "ok") {
        return Some((false, RenderTier::Full));
    }
    if chars_eq_str(raw.as_slice(), "disabled") {
        return Some((false, RenderTier::NoDmabuf));
    }
    let (state, tier) = match split_once_exec(raw.as_slice(), ':') {
        None => return None,
        Some(p) => p,
    };
    let tier = match RenderTier::from_chars(tier.as_slice()) {
        None => return None,
        Some(t) => t,
    };
    if chars_eq_str(state.as_slice(), "probing") {
        Some((true, tier))
    } else if chars_eq_str(state.as_slice(), "ok") {
        Some((false, tier))
    } else {
        None
    }
}

/// Decides the tier for this launch.
pub fn decide_tier(override_tier: Option<RenderTier>, marker: Option<&str>) -> (r: RenderTier)
    ensures
        r == tier_for(override_tier, opt_view(marker)),
{
    if let Some(t) = override_tier {
        return t;
    }
    match parse_marker(marker) {
        Some((true, tier)) => tier.escalate(),
        Some((false, tier)) => tier,
        None => RenderTier::Full,
    }
}

/// The marker to write at startup, `probing:<tier>`, or `None` for an
/// override, so that a transient override never changes the persisted state.
pub fn startup_write(tier: RenderTier, is_override: bool) -> (r: Option<String>)
    ensures
        is_override ==> r is None,
        !is_override ==> (r matches Some(s) && s@ == "probing:"@ + tier.name()),
{
    if is_override {
        None
    } else {
        let mut s = String::from_str("probing:");
        s.append(tier.as_str());
        Some(s)
    }
}

/// The override a user asked for through the environment:
/// `WEBAPPS_RENDER_TIER=full|nodmabuf|nocompositing` (trimmed), else
/// `WEBAPPS_DISABLE_DMABUF=1`, a shorthand for `nodmabuf`.
pub open spec fn override_from_env(render_tier_var: Option<Seq<char>>, disable_dmabuf_var: Option<Seq<char>>) -> Option<RenderTier> {
    match render_tier_var {
        Some(v) if RenderTier::parse(trim(v)) is Some => RenderTier::parse(trim(v)),
        _ => if disable_dmabuf_var == Some("1"@) {
            Some(RenderTier::NoDmabuf)
        } else {
            None
        },
    }
}

/// The override from the values of `WEBAPPS_RENDER_TIER` and
/// `WEBAPPS_DISABLE_DMABUF` (`None` where a variable is unset).
pub fn override_tier(render_tier_var: Option<&str>, disable_dmabuf_var: Option<&str>) -> (r: Option<RenderTier>)
    ensures
        r == override_from_env(opt_view(render_tier_var), opt_view(disable_dmabuf_var)),
{
    if let Some(v) = render_tier_var {
        let t = trim_str(v);
        if let Some(tier) = RenderTier::from_chars(t.as_slice()) {
            return Some(tier);
        }
    }
    match disable_dmabuf_var {
        Some(d) => if str_eq(d, "1") {
            Some(RenderTier::NoDmabuf)
        } else {
            None
        },
        None => None,
    }
}

/// The marker file's contents, trimmed; `None` where it could not be read.
pub fn read_marker(contents: Option<&str>) -> (r: Option<String>)
    ensures
        match contents {
            None => r is None,
            Some(c) => r matches Some(s) && s@ == trim(c@),
        },
{
    match contents {
        None => None,
        Some(c) => {
            let t = trim_str(c);
            Some(from_chars(t.as_slice()))
        },
    }
}

/// The environment assignments for a tier, in order: none for `Full`;
/// the DMA-BUF renderer off below it; and for `NoCompositing` also
/// compositing off and, on a Wayland session where the user has not chosen a
/// GDK backend, the X11 backend.
pub open spec fn tier_env(tier: RenderTier, session_type: Option<Seq<char>>, gdk_backend_set: bool) -> Seq<(Seq<char>, Seq<char>)> {
    match tier {
        RenderTier::Full => seq![],
        RenderTier::NoDmabuf => seq![("WEBKIT_DISABLE_DMABUF_RENDERER"@, "1"@)],
        RenderTier::NoCompositing => {
            let base = seq![("WEBKIT_DISABLE_DMABUF_RENDERER"@, "1"@), ("WEBKIT_DISABLE_COMPOSITING_MODE"@, "1"@)];
            if session_type == Some("wayland"@) && !gdk_backend_set {
                base.push(("GDK_BACKEND"@, "x11"@))
            } else {
                base
            }
        },
    }
}

/// The text of a list of environment assignments.
pub open spec fn env_view(v: Seq<(String, String)>) -> Seq<(Seq<char>, Seq<char>)> {
    v.map_values(|p: (String, String)| (p.0@, p.1@))
}

fn env_pair(k: &str, v: &str) -> (r: (String, String))
    ensures
        r.0@ == k@,
        r.1@ == v@,
{
    (String::from_str(k), String::from_str(v))
}

/// The environment to set for a tier, given `XDG_SESSION_TYPE` and whether
/// `GDK_BACKEND` is set.
pub fn apply_tier_env(tier: RenderTier, session_type: Option<&str>, gdk_backend_set: bool) -> (r: Vec<(String, String)>)
    ensures
        env_view(r@) == tier_env(tier, opt_view(session_type), gdk_backend_set),
{
    let mut r: Vec<(String, String)> = Vec::new();
    if tier == RenderTier::Full {
        assert(env_view(r@) =~= seq![]);
        return r;
    }
    r.push(env_pair("WEBKIT_DISABLE_DMABUF_RENDERER", "1"));
    if tier == RenderTier::NoCompositing {
        r.push(env_pair("WEBKIT_DISABLE_COMPOSITING_MODE", "1"));
        let wayland = match session_type {
            Some(s) => str_eq(s, "wayland"),
            None => false,
        };
        if wayland && !gdk_backend_set {
            r.push(env_pair("GDK_BACKEND", "x11"));
        }
    }
    assert(env_view(r@) =~= tier_env(tier, opt_view(session_type), gdk_backend_set));
    r
}

/// What a launch does: the tier, the environment it sets, and the marker it
/// writes (none under an override).
pub struct LaunchPlan {
    pub tier: RenderTier,
    pub env: Vec<(String, String)>,
    pub marker_write: Option<String>,
}

/// Plans the renderer for this launch from `WEBAPPS_RENDER_TIER`,
/// `WEBAPPS_DISABLE_DMABUF`, the marker file's contents, `XDG_SESSION_TYPE`
/// and whether `GDK_BACKEND` is set.
pub fn configure_for_launch(
    render_tier_var: Option<&str>,
    disable_dmabuf_var: Option<&str>,
    marker_contents: Option<&str>,
    session_type: Option<&str>,
    gdk_backend_set: bool,
) -> (plan: LaunchPlan)
    ensures
        ({
            let ovr = override_from_env(opt_view(render_tier_var), opt_view(disable_dmabuf_var));
            let marker = match marker_contents {
                None => None,
                Some(c) => Some(trim(c@)),
            };
            &&& plan.tier == tier_for(ovr, marker)
            &&& env_view(plan.env@) == tier_env(plan.tier, opt_view(session_type), gdk_backend_set)
            &&& ovr is Some ==> plan.marker_write is None
            &&& ovr is None ==> (plan.marker_write matches Some(s) && s@ == "probing:"@ + plan.tier.name())
        }),
{
    let ovr = override_tier(render_tier_var, disable_dmabuf_var);
    let prev = read_marker(marker_contents);
    let tier = match &prev {
        Some(p) => decide_tier(ovr, Some(p.as_str())),
        None => decide_tier(ovr, None),
    };
    let env = apply_tier_env(tier, session_type, gdk_backend_set);
    let marker_write = startup_write(tier, ovr.is_some());
    LaunchPlan { tier, env, marker_write }
}

/// The marker a launch that survived writes: `ok:<tier>` where the marker
/// says a tier was being probed and no override is active; nothing otherwise,
/// so that an override never changes the saved state.
pub open spec fn confirm_write(ovr: Option<RenderTier>, marker: Option<Seq<char>>) -> Option<Seq<char>> {
    match ovr {
        Some(_) => None,
        None => match marker_meaning(marker) {
            Some((true, t)) => Some("ok:"@ + t.name()),
            _ => None,
        },
    }
}

/// After a launch survived, the marker to write (see [`confirm_write`]),
/// from `WEBAPPS_RENDER_TIER`, `WEBAPPS_DISABLE_DMABUF` and the marker
/// file's contents; `None` to leave the file as it is.
pub fn confirm_started_ok(
    render_tier_var: Option<&str>,
    disable_dmabuf_var: Option<&str>,
    marker_contents: Option<&str>,
) -> (r: Option<String>)
    ensures
        ({
            let ovr = override_from_env(opt_view(render_tier_var), opt_view(disable_dmabuf_var));
            let marker = match marker_contents {
                None => None,
                Some(c) => Some(trim(c@)),
            };
            match confirm_write(ovr, marker) {
                Some(m) => r matches Some(s) && s@ == m,
                None => r is None,
            }
        }),
{
    if override_tier(render_tier_var, disable_dmabuf_var).is_some() {
        return None;
    }
    let prev = read_marker(marker_contents);
    let parsed = match &prev {
        Some(p) => parse_marker(Some(p.as_str())),
        None => parse_marker(None),
    };
    match parsed {
        Some((true, tier)) => {
            let mut s = String::from_str("ok:");
            s.append(tier.as_str());
            Some(s)
        },
        _ => None,
    }
}

proof fn reveal_tier_names()
    ensures
        "full"@ =~= seq!['f', 'u', 'l', 'l'],
        "nodmabuf"@ =~= seq!['n', 'o', 'd', 'm', 'a', 'b', 'u', 'f'],
        "nocompositing"@ =~= seq!['n', 'o', 'c', 'o', 'm', 'p', 'o', 's', 'i', 't', 'i', 'n', 'g'],
        "probing"@ =~= seq!['p', 'r', 'o', 'b', 'i', 'n', 'g'],
        "ok"@ =~= seq!['o', 'k'],
        "disabled"@ =~= seq!['d', 'i', 's', 'a', 'b', 'l', 'e', 'd'],
        "probing:"@ =~= seq!['p', 'r', 'o', 'b', 'i', 'n', 'g', ':'],
        "ok:"@ =~= seq!['o', 'k', ':'],
{
    reveal_strlit("full");
    reveal_strlit("nodmabuf");
    reveal_strlit("nocompositing");
    reveal_strlit("probing");
    reveal_strlit("ok");
    reveal_strlit("disabled");
    reveal_strlit("probing:");
    reveal_strlit("ok:");
}

/// Law: a tier's marker spelling reads back as that tier.
pub proof fn law_tier_name_roundtrip(t: RenderTier)
    ensures
        RenderTier::parse(t.name()) == Some(t),
{
    reveal_tier_names();
}

/// Reads `prefix + name` where `prefix` is a state word followed by `:`.
proof fn lemma_read_state_marker(prefix: Seq<char>, state: Seq<char>, t: RenderTier)
    requires
        prefix == state.push(':'),
        state.len() > 0,
        !crate::text::is_ws(state[0]),
        forall|j: int| 0 <= j < state.len() ==> state[j] != ':',
    ensures
        crate::text::trim(prefix + t.name()) == prefix + t.name(),
        crate::text::split_once(prefix + t.name(), ':') == Some((state, t.name())),
{
    reveal_tier_names();
    let m = prefix + t.name();
    assert(m[0] == state[0]);
    assert(m.last() == t.name().last());
    lemma_trim_noop(m);
    assert(m[state.len() as int] == ':');
    assert forall|j: int| 0 <= j < state.len() implies m[j] != ':' by {
        assert(m[j] == state[j]);
    }
    lemma_find_single(m, ':', state.len() as int);
    assert(m.subrange(0, state.len() as int) =~= state);
    assert(m.subrange(state.len() + 1int, m.len() as int) =~= t.name());
}

/// Law: the marker written at startup reads back as "probing this tier",
/// and the marker written on confirmation as "running fine at this tier".
pub proof fn law_markers_read_back(t: RenderTier)
    ensures
        marker_meaning(Some("probing:"@ + t.name())) == Some((true, t)),
        marker_meaning(Some("ok:"@ + t.name())) == Some((false, t)),
{
    reveal_tier_names();
    assert("probing:"@ =~= "probing"@.push(':'));
    assert("ok:"@ =~= "ok"@.push(':'));
    lemma_read_state_marker("probing:"@, "probing"@, t);
    lemma_read_state_marker("ok:"@, "ok"@, t);
    law_tier_name_roundtrip(t);
    let a = "probing:"@ + t.name();
    let b = "ok:"@ + t.name();
    assert(a.len() > 8);
    assert(b.len() > 3);
    assert(a != "probing"@ && a != "ok"@ && a != "disabled"@) by {
        assert(a.len() != 7 && a.len() != 2);
        if a.len() == 8 {
            assert(a[0] != "disabled"@[0]);
        }
    }
    assert(b != "probing"@ && b != "ok"@ && b != "disabled"@) by {
        assert(b.len() != 2);
        if b.len() == 7 {
            assert(b[0] != "probing"@[0]);
        }
        if b.len() == 8 {
            assert(b[0] != "disabled"@[0]);
        }
    }
    assert("probing"@ != "ok"@);
}

/// Law: with no override, a launch that finds the marker of a launch that
/// crashed while probing a tier steps exactly one tier down, and a launch that
/// finds a confirmed tier keeps it.
pub proof fn law_crash_steps_down_confirm_holds(t: RenderTier)
    ensures
        tier_for(None, Some("probing:"@ + t.name())) == t.next(),
        tier_for(None, Some("ok:"@ + t.name())) == t,
{
    law_markers_read_back(t);
}

/// Law: an override decides the tier whatever the marker says.
pub proof fn law_override_wins(t: RenderTier, marker: Option<Seq<char>>)
    ensures
        tier_for(Some(t), marker) == t,
{
}

/// Law: the ladder only goes down, one step at a time, and stops at
/// `NoCompositing`; it never returns to `Full`.
pub proof fn law_escalation_ladder(t: RenderTier)
    ensures
        t.rank() <= t.next().rank() <= t.rank() + 1,
        (t.next() == t) <==> (t == RenderTier::NoCompositing),
        t.next() != RenderTier::Full,
{
}

/// Law: under an override the confirmation of a launch writes no marker (as
/// the startup write does not, see [`startup_write`]), so the next launch
/// without the override decides from the marker as it was, and steps down
/// from a tier that was being probed.
pub proof fn law_override_keeps_marker(ovr: RenderTier, t: RenderTier)
    ensures
        confirm_write(Some(ovr), Some("probing:"@ + t.name())) is None,
        tier_for(None, Some("probing:"@ + t.name())) == t.next(),
{
    law_markers_read_back(t);
}

/// Law: without an override, a launch at tier `t` that is confirmed leaves a
/// marker under which the next launch runs at `t` again; one that is not
/// confirmed leaves a marker under which the next launch steps down.
pub proof fn law_launch_cycle(t: RenderTier)
    ensures
        ({
            let probing = "probing:"@ + t.name();
            let confirmed = "ok:"@ + t.name();
            &&& marker_meaning(Some(probing)) == Some((true, t))
            &&& tier_for(None, Some(confirmed)) == t
            &&& tier_for(None, Some(probing)) == t.next()
        }),
{
    law_markers_read_back(t);
}

/// Law: the environment a tier sets. `Full` sets nothing; every tier below
/// it turns the DMA-BUF renderer off; `NoCompositing`, and only it, also
/// turns compositing off; and the X11 GDK backend is chosen only at
/// `NoCompositing`, on a Wayland session where the user has not chosen a
/// backend.
pub proof fn law_tier_environment(tier: RenderTier, session_type: Option<Seq<char>>, gdk_backend_set: bool)
    ensures
        ({
            let env = tier_env(tier, session_type, gdk_backend_set);
            &&& tier == RenderTier::Full ==> env.len() == 0
            &&& tier != RenderTier::Full ==> env.contains(("WEBKIT_DISABLE_DMABUF_RENDERER"@, "1"@))
            &&& env.contains(("WEBKIT_DISABLE_COMPOSITING_MODE"@, "1"@)) <==> tier
                == RenderTier::NoCompositing
            &&& env.contains(("GDK_BACKEND"@, "x11"@)) <==> (tier == RenderTier::NoCompositing
                && session_type == Some("wayland"@) && !gdk_backend_set)
        }),
{
    reveal_strlit("WEBKIT_DISABLE_DMABUF_RENDERER");
    reveal_strlit("WEBKIT_DISABLE_COMPOSITING_MODE");
    reveal_strlit("GDK_BACKEND");
    let d = ("WEBKIT_DISABLE_DMABUF_RENDERER"@, "1"@);
    let c = ("WEBKIT_DISABLE_COMPOSITING_MODE"@, "1"@);
    let g = ("GDK_BACKEND"@, "x11"@);
    assert(d.0.len() != c.0.len() && d.0.len() != g.0.len() && c.0.len() != g.0.len());
    let env = tier_env(tier, session_type, gdk_backend_set);
    match tier {
        RenderTier::Full => {},
        RenderTier::NoDmabuf => {
            assert(env[0] == d);
            assert(!env.contains(c)) by {
                if env.contains(c) {
                    let i = choose|i: int| 0 <= i < env.len() && env[i] == c;
                    assert(i == 0);
                }
            }
            assert(!env.contains(g)) by {
                if env.contains(g) {
                    let i = choose|i: int| 0 <= i < env.len() && env[i] == g;
                    assert(i == 0);
                }
            }
        },
        RenderTier::NoCompositing => {
            assert(env[0] == d);
            assert(env[1] == c);
            if session_type == Some("wayland"@) && !gdk_backend_set {
                assert(env[2] == g);
            } else {
                assert(!env.contains(g)) by {
                    if env.contains(g) {
                        let i = choose|i: int| 0 <= i < env.len() && env[i] == g;
                        assert(i == 0 || i == 1);
                    }
                }
            }
        },
    }
}

/// Law: the overrides. A `WEBAPPS_RENDER_TIER` value naming a tier (once
/// trimmed) forces that tier, whatever `WEBAPPS_DISABLE_DMABUF` says;
/// otherwise `WEBAPPS_DISABLE_DMABUF=1` forces `NoDmabuf`; with neither,
/// nothing is forced. A forced tier is the launch's tier whatever the
/// marker holds, and its confirmation writes no marker.
pub proof fn law_render_override_forces_tier(
    t: RenderTier,
    value: Seq<char>,
    other: Option<Seq<char>>,
    dmabuf: Option<Seq<char>>,
    marker: Option<Seq<char>>,
)
    requires
        trim(value) == t.name(),
        other matches Some(v) ==> RenderTier::parse(trim(v)) is None,
    ensures
        override_from_env(Some(value), dmabuf) == Some(t),
        tier_for(override_from_env(Some(value), dmabuf), marker) == t,
        override_from_env(other, Some("1"@)) == Some(RenderTier::NoDmabuf),
        tier_for(override_from_env(other, Some("1"@)), marker) == RenderTier::NoDmabuf,
        dmabuf != Some("1"@) ==> override_from_env(other, dmabuf) is None,
        confirm_write(override_from_env(Some(value), dmabuf), marker) is None,
{
    law_tier_name_roundtrip(t);
}

} // verus!
