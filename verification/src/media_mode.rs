//! Media-capture self-heal: an escalation ladder that keeps microphone and
//! camera capture working where it can.
//!
//!   Native      stock GStreamer, the PipeWire device provider active (default)
//!   NoPipewire  the PipeWire GStreamer plugin excluded; capture still works
//!               through the Pulse/ALSA/V4L2 providers
//!   Off         media-stream and WebRTC disabled entirely (last resort)
//!
//! A web-process crash steps one tier down and persists the new tier in a
//! marker file. This module decides; the caller reads the environment and the
//! file system, writes the marker and builds the plugin directory.
use vstd::prelude::*;
use crate::text::{chars_eq_str, lemma_trim_noop, to_chars, trim, trim_str, from_chars};
use crate::render_mode::opt_view;
use crate::numbers::{decimal, u64_to_decimal};
use vstd::utf8::{encode_scalar, encode_utf8};

verus! {

broadcast use vstd::string::group_string_axioms;

/// The file, inside the configuration directory, that holds the marker.
pub const MARKER_FILENAME: &'static str = "media-mode";

/// The GStreamer plugin that the `NoPipewire` tier leaves out.
pub const EXCLUDED_PLUGIN: &'static str = "libgstpipewire.so";

/// How much of the media path is enabled this launch, ordered from the least
/// conservative (`Native`) to the most (`Off`).
#[derive(PartialEq, Eq, Debug, Clone, Copy, Structural)]
pub enum MediaTier {
    Native,
    NoPipewire,
    Off,
}

impl MediaTier {
    /// The marker spelling of a tier.
    pub open spec fn name(self) -> Seq<char> {
        match self {
            MediaTier::Native => "native"@,
            MediaTier::NoPipewire => "no-pipewire"@,
            MediaTier::Off => "off"@,
        }
    }

    /// The tier a marker or override value names, after trimming. The
    /// `disabled` marker of earlier versions maps to the capture-preserving
    /// `NoPipewire` tier.
    pub open spec fn parse(s: Seq<char>) -> Option<MediaTier> {
        let t = trim(s);
        if t == "native"@ {
            Some(MediaTier::Native)
        } else if t == "no-pipewire"@ {
            Some(MediaTier::NoPipewire)
        } else if t == "off"@ {
            Some(MediaTier::Off)
        } else if t == "disabled"@ {
            Some(MediaTier::NoPipewire)
        } else {
            None
        }
    }

    /// The next tier down; `Off` is the floor.
    pub open spec fn next(self) -> MediaTier {
        match self {
            MediaTier::Native => MediaTier::NoPipewire,
            MediaTier::NoPipewire => MediaTier::Off,
            MediaTier::Off => MediaTier::Off,
        }
    }

    /// Position on the ladder: 0 for `Native`, 2 for `Off`.
    pub open spec fn rank(self) -> int {
        match self {
            MediaTier::Native => 0,
            MediaTier::NoPipewire => 1,
            MediaTier::Off => 2,
        }
    }

    /// The marker spelling of this tier.
    pub fn as_str(self) -> (r: &'static str)
        ensures
            r@ == self.name(),
    {
        match self {
            MediaTier::Native => "native",
            MediaTier::NoPipewire => "no-pipewire",
            MediaTier::Off => "off",
        }
    }

    /// The tier `s` names, after trimming.
    pub fn from_str(s: &str) -> (r: Option<MediaTier>)
        ensures
            r == MediaTier::parse(s@),
    {
        let t = trim_str(s);
        let t = t.as_slice();
        if chars_eq_str(t, "native") {
            Some(MediaTier::Native)
        } else if chars_eq_str(t, "no-pipewire") {
            Some(MediaTier::NoPipewire)
        } else if chars_eq_str(t, "off") {
            Some(MediaTier::Off)
        } else if chars_eq_str(t, "disabled") {
            Some(MediaTier::NoPipewire)
        } else {
            None
        }
    }

    /// The next tier down (more conservative); `Off` is the floor.
    pub fn escalate(self) -> (r: MediaTier)
        ensures
            r == self.next(),
    {
        match self {
            MediaTier::Native => MediaTier::NoPipewire,
            MediaTier::NoPipewire => MediaTier::Off,
            MediaTier::Off => MediaTier::Off,
        }
    }

    /// Whether WebKit's `media-stream`/`webrtc` stay enabled at this tier:
    /// at every tier but `Off`.
    pub fn media_stream_enabled(self) -> (r: bool)
        ensures
            r == (self != MediaTier::Off),
    {
        self != MediaTier::Off
    }
}

/// The tier for a launch: an override wins, otherwise the marker holds, and
/// without a readable marker the tier is `Native`.
pub open spec fn tier_for(override_tier: Option<MediaTier>, marker: Option<Seq<char>>) -> MediaTier {
    match override_tier {
        Some(t) => t,
        None => match marker {
            Some(m) => match MediaTier::parse(m) {
                Some(t) => t,
                None => MediaTier::Native,
            },
            None => MediaTier::Native,
        },
    }
}

/// Decides the tier for this launch.
pub fn decide_tier(override_tier: Option<MediaTier>, marker: Option<&str>) -> (r: MediaTier)
    ensures
        r == tier_for(override_tier, opt_view(marker)),
{
    if let Some(t) = override_tier {
        return t;
    }
    match marker {
        Some(m) => match MediaTier::from_str(m) {
            Some(t) => t,
            None => MediaTier::Native,
        },
        None => MediaTier::Native,
    }
}

/// The override from the value of `WEBAPPS_MEDIA` (`None` where unset).
pub open spec fn override_from_env(var: Option<Seq<char>>) -> Option<MediaTier> {
    match var {
        Some(v) => MediaTier::parse(v),
        None => None,
    }
}

/// The override that `WEBAPPS_MEDIA=native|no-pipewire|off` forces.
pub fn override_tier(var: Option<&str>) -> (r: Option<MediaTier>)
    ensures
        r == override_from_env(opt_view(var)),
{
    match var {
        Some(v) => MediaTier::from_str(v),
        None => None,
    }
}

/// The marker file's contents, trimmed; `None` where it could not be read.
pub fn read_marker(contents: Option<&str>) -> (r: Option<String>)
    ensures
        match contents {
            None => r is None,
            Some(c) => r matches Some(s) && s@ == trim(c@),
        },
{
    match contents {
        None => None,
        Some(c) => {
            let t = trim_str(c);
            Some(from_chars(t.as_slice()))
        },
    }
}

/// The marker as read: the file's contents, trimmed.
pub open spec fn marker_of(contents: Option<&str>) -> Option<Seq<char>> {
    match contents {
        None => None,
        Some(c) => Some(trim(c@)),
    }
}

/// The tier decided for this launch from `WEBAPPS_MEDIA` and the marker
/// file's contents.
pub fn current_tier(media_var: Option<&str>, marker_contents: Option<&str>) -> (r: MediaTier)
    ensures
        r == tier_for(override_from_env(opt_view(media_var)), marker_of(marker_contents)),
{
    let ovr = override_tier(media_var);
    let marker = read_marker(marker_contents);
    match &marker {
        Some(m) => decide_tier(ovr, Some(m.as_str())),
        None => decide_tier(ovr, None),
    }
}

/// Whether this launch must build the filtered GStreamer plugin path: only
/// at `NoPipewire`; the other tiers touch nothing.
pub fn configure_for_launch(media_var: Option<&str>, marker_contents: Option<&str>) -> (r: bool)
    ensures
        r == (tier_for(override_from_env(opt_view(media_var)), marker_of(marker_contents))
            == MediaTier::NoPipewire),
{
    current_tier(media_var, marker_contents) == MediaTier::NoPipewire
}

/// After a web-process crash: the tier one step down, to be persisted (its
/// spelling written as the marker) and applied; `None` when an override pins
/// the tier or the tier is already `Off`.
pub fn escalate_on_crash(media_var: Option<&str>, marker_contents: Option<&str>) -> (r: Option<MediaTier>)
    ensures
        ({
            let ovr = override_from_env(opt_view(media_var));
            let cur = tier_for(ovr, marker_of(marker_contents));
            if ovr is Some || cur == MediaTier::Off {
                r is None
            } else {
                r == Some(cur.next())
            }
        }),
{
    if override_tier(media_var).is_some() {
        return None;
    }
    let current = current_tier(media_var, marker_contents);
    let next = current.escalate();
    if next == current {
        return None;
    }
    Some(next)
}

/// The distro locations searched for the system GStreamer plugin directory.
pub open spec fn plugin_dir_candidates() -> Seq<Seq<char>> {
    seq!["/usr/lib/gstreamer-1.0"@, "/usr/lib64/gstreamer-1.0"@, "/usr/lib/x86_64-linux-gnu/gstreamer-1.0"@]
}

/// The distro locations searched for the system GStreamer plugin directory.
pub fn gst_plugin_dir_candidates() -> (r: Vec<String>)
    ensures
        r@.len() == 3,
        forall|i: int| 0 <= i < 3 ==> #[trigger] r@[i]@ == plugin_dir_candidates()[i],
{
    let mut r: Vec<String> = Vec::new();
    r.push(String::from_str("/usr/lib/gstreamer-1.0"));
    r.push(String::from_str("/usr/lib64/gstreamer-1.0"));
    r.push(String::from_str("/usr/lib/x86_64-linux-gnu/gstreamer-1.0"));
    assert forall|i: int| 0 <= i < 3 implies #[trigger] r@[i]@ == plugin_dir_candidates()[i] by {
        if i == 0 {
        } else if i == 1 {
        } else {
        }
    }
    r
}

/// The system GStreamer plugin directory: `GST_PLUGIN_SYSTEM_PATH_1_0` when
/// it names a directory, else the first candidate (see
/// [`gst_plugin_dir_candidates`]) that holds the PipeWire plugin;
/// `holds_plugin[i]` says whether candidate `i` holds it.
pub fn system_gst_plugin_dir(env_path: Option<&str>, env_path_is_dir: bool, holds_plugin: &[bool]) -> (r: Option<String>)
    requires
        holds_plugin.len() == 3,
    ensures
        if env_path is Some && env_path_is_dir {
            r matches Some(s) && s@ == env_path.unwrap()@
        } else {
            match first_true(holds_plugin@) {
                Some(i) => r matches Some(s) && s@ == plugin_dir_candidates()[i],
                None => r is None,
            }
        },
{
    if let Some(p) = env_path {
        if env_path_is_dir {
            return Some(String::from_str(p));
        }
    }
    let cands = gst_plugin_dir_candidates();
    let mut i: usize = 0;
    while i < 3
        invariant
            holds_plugin.len() == 3,
            !(env_path is Some && env_path_is_dir),
            i <= 3,
            cands@.len() == 3,
            forall|k: int| 0 <= k < 3 ==> #[trigger] cands@[k]@ == plugin_dir_candidates()[k],
            first_true(holds_plugin@) == first_true_from(holds_plugin@, i as int),
        decreases 3 - i,
    {
        if holds_plugin[i] {
            let ghost c = plugin_dir_candidates();
            assert(first_true(holds_plugin@) == Some(i as int));
            let r = cands[i].clone();
            assert(r@ == c[i as int]);
            return Some(r);
        }
        i = i + 1;
    }
    None
}

/// The index of the first `true` in `s` at or after `i`.
pub open spec fn first_true_from(s: Seq<bool>, i: int) -> Option<int>
    decreases s.len() - i,
{
    if i < 0 || i >= s.len() {
        None
    } else if s[i] {
        Some(i)
    } else {
        first_true_from(s, i + 1)
    }
}

/// The index of the first `true` in `s`.
pub open spec fn first_true(s: Seq<bool>) -> Option<int> {
    first_true_from(s, 0)
}

/// The bytes of `.so`.
pub open spec fn so_suffix() -> Seq<u8> {
    seq![0x2eu8, 0x73u8, 0x6fu8]
}

/// The bytes of the PipeWire plugin's file name, `libgstpipewire.so`.
pub open spec fn excluded_plugin_bytes() -> Seq<u8> {
    encode_utf8(EXCLUDED_PLUGIN@)
}

/// Whether a directory entry's file name (its bytes, which hold no `/`) has
/// the extension `so` as `Path::extension` reads it: the text after the last
/// `.` is `so` and that `.` is not the name's first byte. Whether the rest of
/// the name is valid UTF-8 does not matter.
pub open spec fn is_shared_object(name: Seq<u8>) -> bool {
    name.len() > 3 && name.subrange(name.len() - 3, name.len() as int) == so_suffix()
}

proof fn lemma_so_bytes()
    ensures
        encode_utf8(".so"@) == so_suffix(),
{
    reveal_strlit(".so");
    assert(".so"@ =~= seq!['.', 's', 'o']);
    let c = seq!['.', 's', 'o'];
    assert(c.drop_first() =~= seq!['s', 'o']);
    assert(seq!['s', 'o'].drop_first() =~= seq!['o']);
    assert(seq!['o'].drop_first() =~= Seq::<char>::empty());
    assert(('.' as u32) == 0x2e && ('s' as u32) == 0x73 && ('o' as u32) == 0x6f);
    assert((0x2eu32 & 0x7F) == 0x2e && (0x73u32 & 0x7F) == 0x73 && (0x6fu32 & 0x7F) == 0x6f) by (bit_vector);
    assert(encode_scalar('.' as u32) =~= seq![0x2eu8]);
    assert(encode_scalar('s' as u32) =~= seq![0x73u8]);
    assert(encode_scalar('o' as u32) =~= seq![0x6fu8]);
    assert(encode_utf8(Seq::<char>::empty()) =~= Seq::<u8>::empty());
    assert(encode_utf8(seq!['o']) =~= seq![0x6fu8]);
    assert(encode_utf8(seq!['s', 'o']) =~= seq![0x73u8, 0x6fu8]);
    assert(encode_utf8(c) =~= so_suffix());
}

/// Whether a directory entry, named by the bytes `name`, is a shared object
/// (see [`is_shared_object`]).
pub fn plugin_is_shared_object(name: &[u8]) -> (r: bool)
    ensures
        r == is_shared_object(name@),
{
    proof {
        lemma_so_bytes();
    }
    let ext = ".so".as_bytes();
    if name.len() <= ext.len() {
        return false;
    }
    let k = name.len() - ext.len();
    let r = crate::text::occurs_at_bytes(name, ext, k);
    assert(r == (name@.subrange(k as int, k + 3) == so_suffix()));
    r
}

/// Whether a system plugin, named by the bytes `name`, is linked into the
/// filtered plugin directory: every shared object but the PipeWire plugin.
pub fn plugin_is_linked(name: &[u8]) -> (r: bool)
    ensures
        r == (name@ != excluded_plugin_bytes() && is_shared_object(name@)),
{
    let ex = EXCLUDED_PLUGIN.as_bytes();
    let same = name.len() == ex.len() && crate::text::occurs_at_bytes(name, ex, 0);
    assert(same == (name@ == excluded_plugin_bytes())) by {
        if name.len() == ex.len() {
            assert(name@.subrange(0, name@.len() as int) =~= name@);
        }
    }
    !same && plugin_is_shared_object(name)
}

/// Whether the cached filtered plugin directory can be reused: it exists and
/// the stamp file (trimmed) matches the system directory's signature. Two
/// missing values count as matching.
pub fn farm_is_fresh(farm_is_dir: bool, signature: Option<&str>, cached: Option<&str>) -> (r: bool)
    ensures
        r == (farm_is_dir && match (signature, cached) {
            (None, None) => true,
            (Some(s), Some(c)) => s@ == trim(c@),
            _ => false,
        }),
{
    if !farm_is_dir {
        return false;
    }
    match (signature, cached) {
        (None, None) => true,
        (Some(s), Some(c)) => {
            let sv = to_chars(s);
            let cv = trim_str(c);
            crate::text::chars_eq(sv.as_slice(), cv.as_slice())
        },
        _ => false,
    }
}

/// The number of shared objects among `entries` and the newest modification
/// time (in seconds) among those that report one, 0 when none does.
pub open spec fn signature_counts(entries: Seq<(Seq<u8>, Option<u64>)>) -> (nat, nat)
    decreases entries.len(),
{
    if entries.len() == 0 {
        (0, 0)
    } else {
        let (c, n) = signature_counts(entries.drop_last());
        let e = entries.last();
        if is_shared_object(e.0) {
            (c + 1, match e.1 {
                Some(s) => if s > n { s as nat } else { n },
                None => n,
            })
        } else {
            (c, n)
        }
    }
}

/// The view of a directory listing: each entry's name (its bytes) and
/// modification time in seconds (if known).
pub open spec fn entries_view(entries: Seq<(Vec<u8>, Option<u64>)>) -> Seq<(Seq<u8>, Option<u64>)> {
    entries.map_values(|e: (Vec<u8>, Option<u64>)| (e.0@, e.1))
}

proof fn lemma_signature_counts_bounded(entries: Seq<(Seq<u8>, Option<u64>)>)
    ensures
        signature_counts(entries).0 <= entries.len(),
        signature_counts(entries).1 <= u64::MAX,
    decreases entries.len(),
{
    if entries.len() > 0 {
        lemma_signature_counts_bounded(entries.drop_last());
    }
}

/// The signature `"<count>:<newest>"` of a plugin directory's entries,
/// counting shared objects and their newest modification time in seconds.
pub fn plugin_dir_signature(entries: &Vec<(Vec<u8>, Option<u64>)>) -> (r: String)
    ensures
        ({
            let (c, n) = signature_counts(entries_view(entries@));
            r@ == decimal(c) + ":"@ + decimal(n)
        }),
{
    let mut count: u64 = 0;
    let mut newest: u64 = 0;
    let mut i: usize = 0;
    let ghost ev = entries_view(entries@);
    while i < entries.len()
        invariant
            i <= entries.len(),
            ev == entries_view(entries@),
            (count as nat, newest as nat) == signature_counts(ev.take(i as int)),
            count <= i,
        decreases entries.len() - i,
    {
        proof {
            assert(ev.take(i + 1).drop_last() =~= ev.take(i as int));
            assert(ev.take(i + 1).last() == ev[i as int]);
        }
        let is_so = plugin_is_shared_object(entries[i].0.as_slice());
        if is_so {
            count = count + 1;
            if let Some(secs) = entries[i].1 {
                if secs > newest {
                    newest = secs;
                }
            }
        }
        i = i + 1;
    }
    assert(ev.take(entries.len() as int) =~= ev);
    let mut s = u64_to_decimal(count);
    s.append(":");
    let n = u64_to_decimal(newest);
    s.append(n.as_str());
    s
}

proof fn reveal_media_names()
    ensures
        "native"@ =~= seq!['n', 'a', 't', 'i', 'v', 'e'],
        "no-pipewire"@ =~= seq!['n', 'o', '-', 'p', 'i', 'p', 'e', 'w', 'i', 'r', 'e'],
        "off"@ =~= seq!['o', 'f', 'f'],
        "disabled"@ =~= seq!['d', 'i', 's', 'a', 'b', 'l', 'e', 'd'],
{
    reveal_strlit("native");
    reveal_strlit("no-pipewire");
    reveal_strlit("off");
    reveal_strlit("disabled");
}

/// Law: a tier's marker spelling reads back as that tier.
pub proof fn law_tier_name_roundtrip(t: MediaTier)
    ensures
        MediaTier::parse(t.name()) == Some(t),
{
    reveal_media_names();
    lemma_trim_noop(t.name());
}

/// Law: the ladder only goes down, one step at a time, and stops at `Off`.
pub proof fn law_escalation_ladder(t: MediaTier)
    ensures
        t.rank() <= t.next().rank() <= t.rank() + 1,
        (t.next() == t) <==> (t == MediaTier::Off),
        t.next() != MediaTier::Native,
{
}

/// Law: the tier persisted after a crash is the tier the next launch runs
/// at (without an override), and media streams stay enabled there unless that
/// tier is `Off`.
pub proof fn law_escalation_persists(t: MediaTier)
    ensures
        tier_for(None, Some(t.next().name())) == t.next(),
        tier_for(None, Some(t.name())) == t,
{
    law_tier_name_roundtrip(t);
    law_tier_name_roundtrip(t.next());
}

/// Law: an override decides the tier whatever the marker says.
pub proof fn law_override_wins(t: MediaTier, marker: Option<Seq<char>>)
    ensures
        tier_for(Some(t), marker) == t,
{
}

/// Law: a `WEBAPPS_MEDIA` value that names a tier (once trimmed) forces
/// that tier: it is the override, and the launch runs at that tier whatever
/// the marker holds. An unset variable forces nothing.
pub proof fn law_media_override_forces_tier(t: MediaTier, value: Seq<char>, marker: Option<Seq<char>>)
    requires
        trim(value) == t.name(),
    ensures
        override_from_env(Some(value)) == Some(t),
        tier_for(override_from_env(Some(value)), marker) == t,
        override_from_env(Some(t.name())) == Some(t),
        tier_for(override_from_env(Some(t.name())), marker) == t,
        override_from_env(None) is None,
{
    reveal_media_names();
    law_tier_name_roundtrip(t);
    lemma_trim_noop(t.name());
}

/// Law: a plugin directory's signature counts its shared objects and takes
/// the newest of their modification times: adding an entry that is a shared
/// object adds one to the count and never lowers the newest time, which then
/// is at least that entry's; adding any other entry changes nothing; the
/// PipeWire plugin itself is a shared object but is never linked.
pub proof fn law_signature_counts(entries: Seq<(Seq<u8>, Option<u64>)>, e: (Seq<u8>, Option<u64>))
    ensures
        ({
            let (c0, n0) = signature_counts(entries);
            let (c1, n1) = signature_counts(entries.push(e));
            &&& is_shared_object(e.0) ==> c1 == c0 + 1 && n1 >= n0 && (e.1 matches Some(t) ==> n1 >= t)
            &&& !is_shared_object(e.0) ==> c1 == c0 && n1 == n0
        }),
        signature_counts(Seq::<(Seq<u8>, Option<u64>)>::empty()) == (0nat, 0nat),
        is_shared_object(excluded_plugin_bytes()),
{
    assert(entries.push(e).drop_last() =~= entries);
    reveal_strlit("libgstpipewire.so");
    let b = excluded_plugin_bytes();
    let n = "libgstpipewire.so"@;
    assert(n =~= seq!['l', 'i', 'b', 'g', 's', 't', 'p', 'i', 'p', 'e', 'w', 'i', 'r', 'e', '.', 's', 'o']);
    crate::text::lemma_ascii_bytes(n);
    assert(b.len() == 17);
    assert(b.subrange(14, 17) =~= so_suffix());
}

} // verus!
