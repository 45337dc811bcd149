//! The configuration model: global settings, spaces and their apps.
use vstd::prelude::*;

verus! {

broadcast use vstd::string::group_string_axioms;

/// Application-wide configuration.
pub struct GlobalConfig {
    pub general: GeneralSettings,
}

/// General settings.
pub struct GeneralSettings {
    pub sidebar_width: u32,
    pub theme: String,
    /// Minutes of inactivity before a background app's webview is destroyed
    /// to save memory; 0 disables it.
    pub sleep_timeout_mins: u32,
    /// Space ids in the order the user arranged them.
    pub space_order: Vec<String>,
    /// Whether the sidebar is shown (toggled by Ctrl+B, kept across launches).
    pub sidebar_visible: bool,
}

/// A space: its settings and its ordered apps.
pub struct SpaceConfig {
    pub space: SpaceInfo,
    pub apps: Vec<AppConfig>,
}

/// A space's own settings.
pub struct SpaceInfo {
    pub id: String,
    pub name: String,
    pub icon: String,
    pub color: String,
    pub isolation: IsolationMode,
}

/// Whether a space's apps share one web context or each get their own.
#[derive(PartialEq, Eq, Debug, Clone, Copy, Structural)]
pub enum IsolationMode {
    Shared,
    PerApp,
}

/// A stored camera or microphone decision.
#[derive(PartialEq, Eq, Debug, Clone, Copy, Structural)]
pub enum PermissionState {
    Ask,
    Allow,
    Block,
}

/// A capture device kind.
#[derive(PartialEq, Eq, Debug, Clone, Copy, Structural)]
pub enum MediaKind {
    Camera,
    Microphone,
}

/// An app's stored media permissions.
#[derive(PartialEq, Eq, Debug, Clone, Copy, Structural)]
pub struct AppPermissions {
    pub camera: PermissionState,
    pub microphone: PermissionState,
}

/// One web app.
pub struct AppConfig {
    pub id: String,
    pub name: String,
    pub url: String,
    pub icon: String,
    pub isolation_override: bool,
    pub permissions: AppPermissions,
}

/// The sleep timeout used when a configuration does not set one: 15 minutes.
pub fn default_sleep_timeout() -> (r: u32)
    ensures
        r == 15,
{
    15
}

/// The colour a space gets when its configuration does not set one.
pub fn default_space_color() -> (r: String)
    ensures
        r@ == "#4a9eff"@,
{
    String::from_str("#4a9eff")
}

/// Whether the sidebar is shown when a configuration does not say: it is.
pub fn default_sidebar_visible() -> (r: bool)
    ensures
        r,
{
    true
}

impl Default for IsolationMode {
    fn default() -> (r: Self)
        ensures
            r == IsolationMode::Shared,
    {
        IsolationMode::Shared
    }
}

impl Default for PermissionState {
    fn default() -> (r: Self)
        ensures
            r == PermissionState::Ask,
    {
        PermissionState::Ask
    }
}

impl Default for AppPermissions {
    fn default() -> (r: Self)
        ensures
            r.camera == PermissionState::Ask,
            r.microphone == PermissionState::Ask,
    {
        AppPermissions { camera: PermissionState::Ask, microphone: PermissionState::Ask }
    }
}

impl Default for GlobalConfig {
    fn default() -> (r: Self)
        ensures
            r.general.sidebar_width == 100,
            r.general.theme@ == "dark"@,
            r.general.sleep_timeout_mins == 15,
            r.general.space_order@.len() == 0,
            r.general.sidebar_visible,
    {
        GlobalConfig {
            general: GeneralSettings {
                sidebar_width: 100,
                theme: String::from_str("dark"),
                sleep_timeout_mins: 15,
                space_order: Vec::new(),
                sidebar_visible: true,
            },
        }
    }
}

impl Clone for AppConfig {
    fn clone(&self) -> (r: Self)
        ensures
            r == *self,
    {
        AppConfig {
            id: self.id.clone(),
            name: self.name.clone(),
            url: self.url.clone(),
            icon: self.icon.clone(),
            isolation_override: self.isolation_override,
            permissions: self.permissions,
        }
    }
}

impl Clone for SpaceInfo {
    fn clone(&self) -> (r: Self)
        ensures
            r == *self,
    {
        SpaceInfo {
            id: self.id.clone(),
            name: self.name.clone(),
            icon: self.icon.clone(),
            color: self.color.clone(),
            isolation: self.isolation,
        }
    }
}

/// A copy of a list of apps.
pub fn clone_apps(v: &Vec<AppConfig>) -> (r: Vec<AppConfig>)
    ensures
        r@ == v@,
{
    let mut r: Vec<AppConfig> = Vec::new();
    let mut i: usize = 0;
    while i < v.len()
        invariant
            i <= v.len(),
            r@ == v@.take(i as int),
        decreases v.len() - i,
    {
        r.push(v[i].clone());
        assert(v@.take(i + 1) =~= v@.take(i as int).push(v@[i as int]));
        i = i + 1;
    }
    assert(v@.take(v.len() as int) =~= v@);
    r
}

/// A copy of a list of strings.
pub fn clone_strings(v: &Vec<String>) -> (r: Vec<String>)
    ensures
        r@ == v@,
{
    let mut r: Vec<String> = Vec::new();
    let mut i: usize = 0;
    while i < v.len()
        invariant
            i <= v.len(),
            r@ == v@.take(i as int),
        decreases v.len() - i,
    {
        r.push(v[i].clone());
        assert(v@.take(i + 1) =~= v@.take(i as int).push(v@[i as int]));
        i = i + 1;
    }
    assert(v@.take(v.len() as int) =~= v@);
    r
}

impl View for SpaceConfig {
    type V = (SpaceInfo, Seq<AppConfig>);

    open spec fn view(&self) -> (SpaceInfo, Seq<AppConfig>) {
        (self.space, self.apps@)
    }
}

impl View for GeneralSettings {
    type V = (u32, String, u32, Seq<String>, bool);

    open spec fn view(&self) -> (u32, String, u32, Seq<String>, bool) {
        (self.sidebar_width, self.theme, self.sleep_timeout_mins, self.space_order@, self.sidebar_visible)
    }
}

impl View for GlobalConfig {
    type V = (u32, String, u32, Seq<String>, bool);

    open spec fn view(&self) -> (u32, String, u32, Seq<String>, bool) {
        self.general@
    }
}

impl Clone for SpaceConfig {
    fn clone(&self) -> (r: Self)
        ensures
            r@ == self@,
    {
        SpaceConfig { space: self.space.clone(), apps: clone_apps(&self.apps) }
    }
}

impl Clone for GeneralSettings {
    fn clone(&self) -> (r: Self)
        ensures
            r@ == self@,
    {
        GeneralSettings {
            sidebar_width: self.sidebar_width,
            theme: self.theme.clone(),
            sleep_timeout_mins: self.sleep_timeout_mins,
            space_order: clone_strings(&self.space_order),
            sidebar_visible: self.sidebar_visible,
        }
    }
}

impl Clone for GlobalConfig {
    fn clone(&self) -> (r: Self)
        ensures
            r@ == self@,
    {
        GlobalConfig { general: self.general.clone() }
    }
}

/// A copy of a list of spaces.
pub fn clone_spaces(v: &Vec<SpaceConfig>) -> (r: Vec<SpaceConfig>)
    ensures
        spaces_view(r@) == spaces_view(v@),
{
    let mut r: Vec<SpaceConfig> = Vec::new();
    let mut i: usize = 0;
    while i < v.len()
        invariant
            i <= v.len(),
            spaces_view(r@) == spaces_view(v@.take(i as int)),
        decreases v.len() - i,
    {
        r.push(v[i].clone());
        assert(spaces_view(v@.take(i + 1)) =~= spaces_view(v@.take(i as int)).push(v@[i as int]@));
        assert(spaces_view(r@) =~= spaces_view(v@.take(i + 1)));
        i = i + 1;
    }
    assert(v@.take(v.len() as int) =~= v@);
    r
}

impl GeneralSettings {
    /// The settings other than the space order are as in `other`.
    pub open spec fn same_but_order(&self, other: &GeneralSettings) -> bool {
        &&& self.sidebar_width == other.sidebar_width
        &&& self.theme == other.theme
        &&& self.sleep_timeout_mins == other.sleep_timeout_mins
        &&& self.sidebar_visible == other.sidebar_visible
    }
}

/// The views of a list of spaces.
pub open spec fn spaces_view(v: Seq<SpaceConfig>) -> Seq<(SpaceInfo, Seq<AppConfig>)> {
    v.map_values(|s: SpaceConfig| s@)
}

} // verus!
