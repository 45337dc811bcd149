//! Where the configuration lives: the configuration directory and the paths
//! of the files and directories under it, and the errors of reading and
//! writing them. Reading and writing the files is the caller's part.
use vstd::prelude::*;
use crate::text::to_chars;

verus! {

broadcast use vstd::string::group_string_axioms;

/// Why the configuration could not be read or written.
#[derive(PartialEq, Eq, Debug)]
pub enum ConfigError {
    /// A file-system error, with its message.
    Io(String),
    /// The configuration could not be written as TOML, with the message.
    TomlSer(String),
    /// A file is not valid TOML for its type, with the message.
    TomlDe(String),
    /// The system has no configuration directory.
    NoConfigDir,
}

/// The text of an error.
pub open spec fn error_text(e: ConfigError) -> Seq<char> {
    match e {
        ConfigError::Io(m) => "IO error: "@ + m@,
        ConfigError::TomlSer(m) => "TOML serialization error: "@ + m@,
        ConfigError::TomlDe(m) => "TOML deserialization error: "@ + m@,
        ConfigError::NoConfigDir => "Config directory not found"@,
    }
}

impl ConfigError {
    /// The text of the error.
    pub fn message(&self) -> (r: String)
        ensures
            r@ == error_text(*self),
    {
        match self {
            ConfigError::Io(m) => {
                let mut s = String::from_str("IO error: ");
                s.append(m.as_str());
                s
            },
            ConfigError::TomlSer(m) => {
                let mut s = String::from_str("TOML serialization error: ");
                s.append(m.as_str());
                s
            },
            ConfigError::TomlDe(m) => {
                let mut s = String::from_str("TOML deserialization error: ");
                s.append(m.as_str());
                s
            },
            ConfigError::NoConfigDir => String::from_str("Config directory not found"),
        }
    }
}

/// `base` with `part` appended as `PathBuf::push` appends on Unix: an
/// absolute `part` replaces `base`; otherwise one `/` separates them unless
/// `base` is empty or already ends with one.
pub open spec fn path_join(base: Seq<char>, part: Seq<char>) -> Seq<char> {
    if part.len() > 0 && part[0] == '/' {
        part
    } else if base.len() == 0 || base.last() == '/' {
        base + part
    } else {
        base + seq!['/'] + part
    }
}

/// `base` with `part` appended (see [`path_join`]).
pub fn join_path(base: &str, part: &str) -> (r: String)
    ensures
        r@ == path_join(base@, part@),
{
    let b = to_chars(base);
    let p = to_chars(part);
    if p.len() > 0 && p[0] == '/' {
        return String::from_str(part);
    }
    let mut r = String::from_str(base);
    if !(b.len() == 0 || b[b.len() - 1] == '/') {
        r.append("/");
        proof {
            reveal_strlit("/");
        }
    }
    r.append(part);
    r
}

/// The system's configuration directory, if it has one
/// (`dirs::config_dir`), as text. It depends on the environment and the
/// platform; nothing is stated of it. The library's paths are text: a
/// directory whose name is not valid UTF-8 is read with U+FFFD in place of
/// the bytes that are not (`Path::to_string_lossy`), so it names another
/// directory than the system's.
#[verifier::external_body]
fn system_config_dir() -> (r: Option<String>) {
    match dirs::config_dir() {
        Some(p) => Some(p.to_string_lossy().into_owned()),
        None => None,
    }
}

/// The application's configuration directory under the system's
/// configuration directory `base`: `<base>/webapps`.
pub open spec fn config_dir_under(base: Seq<char>) -> Seq<char> {
    path_join(base, "webapps"@)
}

/// The application's configuration directory given the system's
/// configuration directory `base`; an error where there is none.
pub fn config_dir_in(base: Option<&str>) -> (r: Result<String, ConfigError>)
    ensures
        match base {
            Some(b) => r matches Ok(p) && p@ == config_dir_under(b@),
            None => r == Err::<String, ConfigError>(ConfigError::NoConfigDir),
        },
{
    match base {
        Some(b) => Ok(join_path(b, "webapps")),
        None => Err(ConfigError::NoConfigDir),
    }
}

/// The application's configuration directory, `webapps` under the system's
/// configuration directory; an error where the system has none.
pub fn config_dir() -> (r: Result<String, ConfigError>)
    ensures
        match r {
            Ok(p) => exists|b: Seq<char>| p@ == config_dir_under(b),
            Err(e) => e == ConfigError::NoConfigDir,
        },
{
    let base = system_config_dir();
    match base {
        Some(b) => config_dir_in(Some(b.as_str())),
        None => config_dir_in(None),
    }
}

/// The global configuration file: `config.toml` in `config`.
pub fn config_file(config: &str) -> (r: String)
    ensures
        r@ == path_join(config@, "config.toml"@),
{
    join_path(config, "config.toml")
}

/// The directory of the space files: `spaces` in `config`.
pub fn spaces_dir(config: &str) -> (r: String)
    ensures
        r@ == path_join(config@, "spaces"@),
{
    join_path(config, "spaces")
}

/// The file of space `space_id`: `<space_id>.toml` in the spaces directory.
pub fn space_file(config: &str, space_id: &str) -> (r: String)
    ensures
        r@ == path_join(path_join(config@, "spaces"@), space_id@ + ".toml"@),
{
    let dir = spaces_dir(config);
    let mut name = String::from_str(space_id);
    name.append(".toml");
    join_path(dir.as_str(), name.as_str())
}

/// The root of the webviews' data: `webview-data` in `config`.
pub fn webview_data_root(config: &str) -> (r: String)
    ensures
        r@ == path_join(config@, "webview-data"@),
{
    join_path(config, "webview-data")
}

/// The directory of downloaded icons: `icons` in `config`.
pub fn icons_dir(config: &str) -> (r: String)
    ensures
        r@ == path_join(config@, "icons"@),
{
    join_path(config, "icons")
}

/// The service-worker store of one webview-data directory: its
/// `serviceworkers` directory.
pub fn service_worker_dir(data_dir: &str) -> (r: String)
    ensures
        r@ == path_join(data_dir@, "serviceworkers"@),
{
    join_path(data_dir, "serviceworkers")
}

/// The data directory of a space's shared web context, or of one app's own
/// context: `webview-data/space-<space_id>[/<app_id>]` in `config`.
pub open spec fn data_dir_path(config: Seq<char>, space_id: Seq<char>, app_id: Option<Seq<char>>) -> Seq<
    char,
> {
    let base = path_join(path_join(config, "webview-data"@), "space-"@ + space_id);
    match app_id {
        Some(id) => path_join(base, id),
        None => base,
    }
}

/// The data directory of a space's shared web context (`app_id` `None`) or
/// of one app's own context, under the configuration directory `config`.
pub fn webview_data_dir_in(config: &str, space_id: &str, app_id: Option<&str>) -> (r: String)
    ensures
        r@ == data_dir_path(config@, space_id@, crate::render_mode::opt_view(app_id)),
{
    let root = webview_data_root(config);
    let mut name = String::from_str("space-");
    name.append(space_id);
    let base = join_path(root.as_str(), name.as_str());
    match app_id {
        Some(id) => join_path(base.as_str(), id),
        None => base,
    }
}

/// The data directory of a space's shared web context (`app_id` `None`) or
/// of one app's own context; an error where the system has no
/// configuration directory.
pub fn webview_data_dir(space_id: &str, app_id: Option<&str>) -> (r: Result<String, ConfigError>)
    ensures
        match r {
            Ok(p) => exists|b: Seq<char>|
                p@ == data_dir_path(config_dir_under(b), space_id@, crate::render_mode::opt_view(app_id)),
            Err(e) => e == ConfigError::NoConfigDir,
        },
{
    match config_dir() {
        Ok(c) => {
            let ghost b = choose|b: Seq<char>| c@ == config_dir_under(b);
            let p = webview_data_dir_in(c.as_str(), space_id, app_id);
            assert(p@ == data_dir_path(config_dir_under(b), space_id@, crate::render_mode::opt_view(app_id)));
            Ok(p)
        },
        Err(e) => Err(e),
    }
}

/// Whether `t` holds no path separator.
pub open spec fn no_separator(t: Seq<char>) -> bool {
    forall|i: int| 0 <= i < t.len() ==> t[i] != '/'
}

/// The text every webview-data directory under `config` starts with:
/// `<config>/webview-data/space-`.
pub open spec fn data_dir_prefix(config: Seq<char>) -> Seq<char> {
    path_join(config, "webview-data"@) + "/space-"@
}

/// Lemma: the shape of a webview-data directory whose ids hold no path
/// separator: the prefix, the space id, then `/` and the app id where there
/// is one.
pub proof fn lemma_data_dir_shape(config: Seq<char>, space_id: Seq<char>, app_id: Option<Seq<char>>)
    requires
        no_separator(space_id),
        app_id matches Some(a) ==> no_separator(a),
    ensures
        data_dir_path(config, space_id, app_id) == match app_id {
            Some(a) => data_dir_prefix(config) + space_id + seq!['/'] + a,
            None => data_dir_prefix(config) + space_id,
        },
{
    reveal_strlit("webview-data");
    reveal_strlit("space-");
    reveal_strlit("/space-");
    let root = path_join(config, "webview-data"@);
    assert(root.len() > 0 && root.last() == 'a') by {
        if config.len() == 0 || config.last() == '/' {
            assert(root == config + "webview-data"@);
        } else {
            assert(root == config + seq!['/'] + "webview-data"@);
        }
    }
    let name = "space-"@ + space_id;
    assert(name[0] == 's');
    let base = path_join(root, name);
    assert(base == root + seq!['/'] + name);
    assert(base =~= data_dir_prefix(config) + space_id);
    assert(base.len() > 0);
    assert(base.last() != '/') by {
        if space_id.len() > 0 {
            assert(base.last() == space_id[space_id.len() - 1]);
        } else {
            assert(base.last() == '-');
        }
    }
    match app_id {
        Some(a) => {
            if a.len() > 0 {
                assert(a[0] != '/');
            }
            assert(path_join(base, a) == base + seq!['/'] + a);
        },
        None => {},
    }
}

/// Law: under the system configuration directory `b`, the webview data of
/// space `s` lives in `<b>/webapps/webview-data/space-<s>`, and an app `a`
/// of it with a context of its own in `<that>/<a>`, where the ids hold no
/// path separator.
pub proof fn law_data_dir_layout(b: Seq<char>, s: Seq<char>, a: Seq<char>)
    requires
        no_separator(s),
        no_separator(a),
    ensures
        data_dir_path(config_dir_under(b), s, None) == config_dir_under(b) + "/webview-data/space-"@ + s,
        data_dir_path(config_dir_under(b), s, Some(a)) == config_dir_under(b) + "/webview-data/space-"@
            + s + "/"@ + a,
{
    reveal_strlit("webapps");
    reveal_strlit("webview-data");
    reveal_strlit("/webview-data/space-");
    reveal_strlit("/space-");
    reveal_strlit("/");
    let c = config_dir_under(b);
    assert(c.len() > 0 && c.last() == 's') by {
        if b.len() == 0 || b.last() == '/' {
            assert(c == b + "webapps"@);
        } else {
            assert(c == b + seq!['/'] + "webapps"@);
        }
    }
    assert(path_join(c, "webview-data"@) == c + seq!['/'] + "webview-data"@);
    assert(data_dir_prefix(c) =~= c + "/webview-data/space-"@);
    lemma_data_dir_shape(c, s, None);
    lemma_data_dir_shape(c, s, Some(a));
    assert(data_dir_path(c, s, Some(a)) =~= c + "/webview-data/space-"@ + s + "/"@ + a);
}

/// Law: where the ids hold no path separator, an app's own webview-data
/// directory lies inside its space's shared one: `<space dir>/<app id>`.
pub proof fn law_app_dir_nests_in_space_dir(config: Seq<char>, s: Seq<char>, a: Seq<char>)
    requires
        no_separator(s),
        no_separator(a),
    ensures
        data_dir_path(config, s, Some(a)) == data_dir_path(config, s, None) + seq!['/'] + a,
{
    lemma_data_dir_shape(config, s, Some(a));
    lemma_data_dir_shape(config, s, None);
}

/// Law: a webview-data directory is fixed by the space and the app it is
/// for: where the ids hold no path separator, two different (space, app)
/// pairs never get the same directory, whether the spaces are the same or
/// different, an absent app standing for the space's shared context.
pub proof fn law_data_dirs_distinct(
    config: Seq<char>,
    s1: Seq<char>,
    a1: Option<Seq<char>>,
    s2: Seq<char>,
    a2: Option<Seq<char>>,
)
    requires
        no_separator(s1),
        no_separator(s2),
        a1 matches Some(a) ==> no_separator(a),
        a2 matches Some(a) ==> no_separator(a),
    ensures
        (s1, a1) != (s2, a2) ==> data_dir_path(config, s1, a1) != data_dir_path(config, s2, a2),
{
    lemma_data_dir_shape(config, s1, a1);
    lemma_data_dir_shape(config, s2, a2);
    let pre = data_dir_prefix(config);
    let x = match a1 {
        Some(a) => s1 + seq!['/'] + a,
        None => s1,
    };
    let y = match a2 {
        Some(a) => s2 + seq!['/'] + a,
        None => s2,
    };
    assert(data_dir_path(config, s1, a1) =~= pre + x);
    assert(data_dir_path(config, s2, a2) =~= pre + y);
    if (s1, a1) != (s2, a2) && pre + x == pre + y {
        assert(x =~= (pre + x).skip(pre.len() as int));
        assert(y =~= (pre + y).skip(pre.len() as int));
        assert(x == y);
        match (a1, a2) {
            (None, None) => {},
            (Some(p), None) => {
                assert(x[s1.len() as int] == '/');
                assert(y[s1.len() as int] != '/');
            },
            (None, Some(q)) => {
                assert(y[s2.len() as int] == '/');
                assert(x[s2.len() as int] != '/');
            },
            (Some(p), Some(q)) => {
                if s1.len() < s2.len() {
                    assert(x[s1.len() as int] == '/');
                    assert(y[s1.len() as int] == s2[s1.len() as int]);
                } else if s2.len() < s1.len() {
                    assert(y[s2.len() as int] == '/');
                    assert(x[s2.len() as int] == s1[s2.len() as int]);
                } else {
                    assert(s1 =~= x.take(s1.len() as int));
                    assert(s2 =~= y.take(s2.len() as int));
                    assert(p =~= x.skip(s1.len() as int + 1));
                    assert(q =~= y.skip(s2.len() as int + 1));
                }
            },
        }
    }
}

/// The extension of the file name `name` as `Path::extension` reads it: the
/// text after the last `.`, unless there is none or it is the leading one.
pub open spec fn extension(name: Seq<char>) -> Option<Seq<char>> {
    match last_dot(name, name.len() as int) {
        Some(k) => if k > 0 {
            Some(name.skip(k + 1))
        } else {
            None
        },
        None => None,
    }
}

/// The index of the last `.` among the first `n` characters of `name`.
pub open spec fn last_dot(name: Seq<char>, n: int) -> Option<int>
    decreases n,
{
    if n <= 0 {
        None
    } else if name[n - 1] == '.' {
        Some(n - 1)
    } else {
        last_dot(name, n - 1)
    }
}

/// Whether the file name `name` has the extension `toml`.
pub fn has_toml_extension(name: &str) -> (r: bool)
    ensures
        r == (extension(name@) == Some("toml"@)),
{
    let v = to_chars(name);
    let mut n: usize = v.len();
    while n > 0 && v[n - 1] != '.'
        invariant
            n <= v.len(),
            v@ == name@,
            last_dot(name@, name@.len() as int) == last_dot(name@, n as int),
        decreases n,
    {
        n = n - 1;
    }
    if n <= 1 {
        return false;
    }
    let k = n - 1;
    let ext = crate::text::slice_to_vec(v.as_slice(), k + 1, v.len());
    assert(ext@ =~= name@.skip(k + 1));
    crate::text::chars_eq_str(ext.as_slice(), "toml")
}

} // verus!
