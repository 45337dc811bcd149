//! How an app webview treats links and new windows: which hosts belong to
//! the app's site, where a new window opens, and the scripts that route
//! clicks and `window.open` calls.
use vstd::prelude::*;
use crate::render_mode::opt_view;
use crate::text::{ends_with, ends_with_exec, replace, replace_str, str_eq, to_chars};

verus! {

broadcast use vstd::string::group_string_axioms;

/// The text that opens a link-interceptor script, up to the app id.
pub const LINK_INTERCEPTOR_HEAD: &'static str = r#"
(function() {
  var APP_ID = "#;

/// The text of a link-interceptor script between the app id and the app's
/// registrable domain.
pub const LINK_INTERCEPTOR_MID: &'static str = r#";
  var baseHostname = window.location.hostname;
  var baseDomain = "#;

/// The text that closes a link-interceptor script, after the domain.
pub const LINK_INTERCEPTOR_TAIL: &'static str = r#";

  function invoke(cmd, args) {
    if (window.__TAURI_INTERNALS__) {
      try { window.__TAURI_INTERNALS__.invoke(cmd, args); } catch (e) {}
    }
  }

  function isSameSite(host) {
    if (baseDomain) {
      return host === baseDomain || host.endsWith('.' + baseDomain);
    }
    return host === baseHostname;
  }

  function findAnchor(node) {
    while (node && node.tagName !== 'A') { node = node.parentElement; }
    return node;
  }

  function isHttp(el) {
    return el.protocol === 'http:' || el.protocol === 'https:';
  }

  // True when the anchor targets a NEW window/tab (target=_blank or a named
  // target), as opposed to navigating the current frame.
  function opensNewWindow(el) {
    var t = (el.target || '').toLowerCase();
    return t === '_blank' || (t && t !== '_self' && t !== '_top' && t !== '_parent');
  }

  document.addEventListener('click', function(e) {
    var el = findAnchor(e.target);
    if (!el || !el.href || !isHttp(el)) return;

    if (!isSameSite(el.hostname)) {
      // Third-party: hand off to the system browser.
      e.preventDefault();
      e.stopPropagation();
      invoke('open_in_browser', { url: el.href });
      return;
    }

    if (opensNewWindow(el)) {
      // Same-site new-window link: open it in an in-app popup.
      e.preventDefault();
      e.stopPropagation();
      invoke('open_blank_popup', { appId: APP_ID, url: el.href });
    }
    // Same-site same-tab link: let it navigate normally.
  }, true);
})();
"#;

/// The text that opens a `window.open` override, up to the app id.
pub const OPEN_OVERRIDE_HEAD: &'static str = r#"
(function() {
  if (window.__webapps_open_override) return;
  window.__webapps_open_override = true;

  var APP_ID = "#;

/// The text of a `window.open` override between the app id and the app's
/// registrable domain.
pub const OPEN_OVERRIDE_MID: &'static str = r#";
  var BASE_DOMAIN = "#;

/// The text that closes a `window.open` override, after the domain.
pub const OPEN_OVERRIDE_TAIL: &'static str = r#";
  var realOpen = window.open ? window.open.bind(window) : null;

  function invoke(cmd, args) {
    if (window.__TAURI_INTERNALS__) {
      try { return window.__TAURI_INTERNALS__.invoke(cmd, args); } catch (e) {}
    }
  }

  function openInApp(u) {
    if (!u || u === 'about:blank') return;
    invoke('open_blank_popup', { appId: APP_ID, url: u });
  }

  // A minimal Window stand-in. Drive sets `.location` (string), `.location.href`,
  // or calls `.location.assign(...)`; any of those triggers the in-app popup.
  function makeProxy() {
    var opened = false;
    function go(u) { if (opened || !u) return; opened = true; openInApp(String(u)); }

    var loc = {
      assign: function(u) { go(u); },
      replace: function(u) { go(u); },
      reload: function() {},
      toString: function() { return 'about:blank'; }
    };
    var locProxy = new Proxy(loc, {
      get: function(t, p) { if (p === 'href') return 'about:blank'; return t[p]; },
      set: function(t, p, v) { if (p === 'href') go(v); t[p] = v; return true; }
    });

    var win = {
      closed: false,
      focus: function() {},
      blur: function() {},
      close: function() { win.closed = true; },
      postMessage: function() {},
      document: { write: function() {}, writeln: function() {}, open: function() {}, close: function() {} }
    };
    return new Proxy(win, {
      get: function(t, p) {
        if (p === 'location') return locProxy;
        if (p in t) return t[p];
        return undefined;
      },
      set: function(t, p, v) {
        if (p === 'location') { go(typeof v === 'string' ? v : (v && v.href)); return true; }
        t[p] = v; return true;
      }
    });
  }

  window.open = function(url, target, features) {
    var resolved = '';
    try { resolved = url ? new URL(url, window.location.href).href : ''; }
    catch (e) { resolved = url ? String(url) : ''; }

    if (resolved && resolved !== 'about:blank') {
      // Real URL: the native path already routes correctly and preserves opener.
      if (realOpen) return realOpen(url, target, features);
      openInApp(resolved);
      return makeProxy();
    }
    // Blank-first popup: the engine blocks this, so emulate it ourselves.
    return makeProxy();
  };
})();
"#;

/// The script that makes a page's `getUserMedia` honour the app's blocked
/// devices and lets the shell stop its tracks.
pub const MEDIA_GUARD_JS: &'static str = r#"
(function() {
  if (window.__webapps_media_guard_installed) return;
  window.__webapps_media_guard_installed = true;

  if (!navigator.mediaDevices || !navigator.mediaDevices.getUserMedia) return;

  var realGUM = navigator.mediaDevices.getUserMedia.bind(navigator.mediaDevices);
  var activeStreams = new Set();

  navigator.mediaDevices.getUserMedia = async function(constraints) {
    constraints = constraints || {};
    var wantsVideo = !!constraints.video;
    var wantsAudio = !!constraints.audio;

    try {
      var perms = await window.__TAURI_INTERNALS__.invoke('check_app_media_permissions');
      if ((wantsVideo && perms.camera === 'block') ||
          (wantsAudio && perms.microphone === 'block')) {
        throw new DOMException('Permission denied by user', 'NotAllowedError');
      }
    } catch (e) {
      if (e && e.name === 'NotAllowedError') throw e;
      // If the permission check fails for any other reason, fall through to real GUM.
    }

    var stream = await realGUM(constraints);
    activeStreams.add(stream);
    return stream;
  };

  document.addEventListener('__webapps_revoke_media', function(e) {
    var kind = e.detail && e.detail.kind;
    activeStreams.forEach(function(stream) {
      stream.getTracks().forEach(function(track) {
        if ((kind === 'camera' && track.kind === 'video') ||
            (kind === 'microphone' && track.kind === 'audio')) {
          track.stop();
        }
      });
    });
  });
})();
"#;

/// The user agent app webviews present: Safari's, which matches the engine.
pub const USER_AGENT: &'static str = "Mozilla/5.0 (Macintosh; Intel Mac OS X 10_15_7) AppleWebKit/605.1.15 (KHTML, like Gecko) Version/17.6 Safari/605.1.15";

/// The characters of an optional string.
pub open spec fn opt_text(o: Option<String>) -> Option<Seq<char>> {
    match o {
        Some(s) => Some(s@),
        None => None,
    }
}

/// The lower-case hexadecimal digit of `n` (below 16).
pub open spec fn hex_digit(n: int) -> char {
    if n < 10 {
        (48 + n) as char
    } else {
        (87 + n) as char
    }
}

/// How a JSON string literal writes the character `c`.
pub open spec fn json_escape(c: char) -> Seq<char> {
    if c == '"' {
        seq!['\\', '"']
    } else if c == '\\' {
        seq!['\\', '\\']
    } else if c == '\u{8}' {
        seq!['\\', 'b']
    } else if c == '\t' {
        seq!['\\', 't']
    } else if c == '\n' {
        seq!['\\', 'n']
    } else if c == '\u{c}' {
        seq!['\\', 'f']
    } else if c == '\r' {
        seq!['\\', 'r']
    } else if (c as u32) < 0x20 {
        seq!['\\', 'u', '0', '0', hex_digit((c as int) / 16), hex_digit((c as int) % 16)]
    } else {
        seq![c]
    }
}

/// The JSON string literal of `s`: in double quotes, with quotes, back
/// slashes and control characters escaped.
pub open spec fn json_string_literal(s: Seq<char>) -> Seq<char> {
    seq!['"'] + s.map_values(|c: char| json_escape(c)).flatten() + seq!['"']
}

#[verifier::external_type_specification]
#[verifier::external_body]
pub struct ExJsonError(serde_json::Error);

/// `serde_json::to_string` on a string slice. Its serializer writes the
/// escaped literal into a `Vec`, a writer that never fails, so the call
/// succeeds; the text is the one `format_escaped_str` writes.
#[verifier::external_body]
fn json_to_string(s: &str) -> (r: Result<String, serde_json::Error>)
    ensures
        match r {
            Ok(t) => t@ == json_string_literal(s@),
            Err(_) => false,
        },
{
    serde_json::to_string(s)
}

/// `s` as a quoted JavaScript string literal (its JSON literal).
pub fn js_string_literal(s: &str) -> (r: String)
    ensures
        r@ == json_string_literal(s@),
{
    match json_to_string(s) {
        Ok(t) => t,
        Err(_) => String::from_str("\"\""),
    }
}

/// The JavaScript value of an optional registrable domain: its literal, or
/// `null`.
pub open spec fn domain_literal(d: Option<Seq<char>>) -> Seq<char> {
    match d {
        Some(x) => json_string_literal(x),
        None => "null"@,
    }
}

fn domain_js(d: Option<&str>) -> (r: String)
    ensures
        r@ == domain_literal(opt_view(d)),
{
    match d {
        Some(x) => js_string_literal(x),
        None => String::from_str("null"),
    }
}

/// The click interceptor for the app `app_id` whose registrable domain is
/// `base_domain`: third-party links go to the system browser, same-site
/// links that open a new window open as an in-app popup.
pub fn build_link_interceptor_js(app_id: &str, base_domain: Option<&str>) -> (r: String)
    ensures
        r@ == LINK_INTERCEPTOR_HEAD@ + json_string_literal(app_id@) + LINK_INTERCEPTOR_MID@
            + domain_literal(opt_view(base_domain)) + LINK_INTERCEPTOR_TAIL@,
{
    let id = js_string_literal(app_id);
    let dom = domain_js(base_domain);
    let mut r = String::from_str(LINK_INTERCEPTOR_HEAD);
    r.append(id.as_str());
    r.append(LINK_INTERCEPTOR_MID);
    r.append(dom.as_str());
    r.append(LINK_INTERCEPTOR_TAIL);
    r
}

/// The `window.open` override for the app `app_id` whose registrable domain
/// is `base_domain`: a blank window is emulated and the address the page
/// then sets opens through `open_blank_popup`.
pub fn build_window_open_override_js(app_id: &str, base_domain: Option<&str>) -> (r: String)
    ensures
        r@ == OPEN_OVERRIDE_HEAD@ + json_string_literal(app_id@) + OPEN_OVERRIDE_MID@
            + domain_literal(opt_view(base_domain)) + OPEN_OVERRIDE_TAIL@,
{
    let id = js_string_literal(app_id);
    let dom = domain_js(base_domain);
    let mut r = String::from_str(OPEN_OVERRIDE_HEAD);
    r.append(id.as_str());
    r.append(OPEN_OVERRIDE_MID);
    r.append(dom.as_str());
    r.append(OPEN_OVERRIDE_TAIL);
    r
}

/// The registrable domain (public suffix plus one label) of `host` by the
/// Public Suffix List; `None` where there is none.
pub uninterp spec fn psl_domain(host: Seq<char>) -> Option<Seq<char>>;

/// `psl::domain_str`: the registrable domain of `host` by the Public Suffix
/// List compiled into the crate; a function of `host` alone, named here and
/// not spelled out.
#[verifier::external_body]
fn psl_domain_str<'a>(host: &'a str) -> (r: Option<&'a str>)
    ensures
        opt_view(r) == psl_domain(host@),
{
    psl::domain_str(host)
}

/// The registrable domain (eTLD+1) of `host`, such as `google.com` for
/// `docs.google.com`; `None` for a host with none, such as `localhost`.
pub fn registrable_domain<'a>(host: &'a str) -> (r: Option<&'a str>)
    ensures
        opt_view(r) == psl_domain(host@),
{
    psl_domain_str(host)
}

/// Two hosts are the same site: both have a registrable domain, and it is
/// the same.
pub open spec fn same_domain(a: Option<Seq<char>>, b: Option<Seq<char>>) -> bool {
    match (a, b) {
        (Some(x), Some(y)) => x == y,
        _ => false,
    }
}

/// The hosts of the sign-in providers whose windows always open in the app.
pub open spec fn sso_host(host: Seq<char>) -> bool {
    ||| host == "accounts.google.com"@
    ||| host == "appleid.apple.com"@
    ||| host == "login.microsoftonline.com"@
    ||| host == "github.com"@
    ||| ends_with(host, ".github.com"@)
}

/// Whether `host` is a sign-in provider whose windows always open in the app.
pub fn is_sso_host(host: &str) -> (r: bool)
    ensures
        r == sso_host(host@),
{
    if str_eq(host, "accounts.google.com") || str_eq(host, "appleid.apple.com") || str_eq(
        host,
        "login.microsoftonline.com",
    ) || str_eq(host, "github.com") {
        return true;
    }
    let h = to_chars(host);
    let suffix = to_chars(".github.com");
    ends_with_exec(h.as_slice(), suffix.as_slice())
}

/// Where a new window that a page asks for opens.
#[derive(PartialEq, Eq, Debug, Clone, Copy, Structural)]
pub enum WindowRoute {
    /// An in-app popup that shares the app's web context.
    Popup,
    /// The app's own webview navigates to it.
    InPlace,
    /// The system browser.
    Browser,
}

/// Where a new window for `host` opens, for an app at `base_host` with the
/// registrable domain `base_domain`, `host_domain` being the registrable
/// domain of `host`: blank windows and sign-in providers as popups, the
/// app's own host in place, the app's site as popups, anything else in the
/// browser.
pub open spec fn window_route(
    host: Seq<char>,
    base_host: Option<Seq<char>>,
    base_domain: Option<Seq<char>>,
    host_domain: Option<Seq<char>>,
) -> WindowRoute {
    if host.len() == 0 {
        WindowRoute::Popup
    } else if sso_host(host) {
        WindowRoute::Popup
    } else if base_host == Some(host) {
        WindowRoute::InPlace
    } else if same_domain(base_domain, host_domain) {
        WindowRoute::Popup
    } else {
        WindowRoute::Browser
    }
}

/// Where a new window for `host` opens, given the registrable domain of
/// `host` (see [`window_route`]).
pub fn route_for(
    host: &str,
    base_host: Option<&str>,
    base_domain: Option<&str>,
    host_domain: Option<&str>,
) -> (r: WindowRoute)
    ensures
        r == window_route(host@, opt_view(base_host), opt_view(base_domain), opt_view(host_domain)),
{
    if host.unicode_len() == 0 {
        return WindowRoute::Popup;
    }
    if is_sso_host(host) {
        return WindowRoute::Popup;
    }
    let same_host = match base_host {
        Some(b) => str_eq(b, host),
        None => false,
    };
    if same_host {
        return WindowRoute::InPlace;
    }
    let same_site = match (base_domain, host_domain) {
        (Some(b), Some(n)) => str_eq(b, n),
        _ => false,
    };
    if same_site {
        WindowRoute::Popup
    } else {
        WindowRoute::Browser
    }
}

/// Where a new window for `host` opens, for an app at `base_host` with the
/// registrable domain `base_domain` (see [`window_route`]); the registrable
/// domain of `host` is looked up only where the earlier rules do not decide.
pub fn route_new_window(host: &str, base_host: Option<&str>, base_domain: Option<&str>) -> (r: WindowRoute)
    ensures
        r == window_route(host@, opt_view(base_host), opt_view(base_domain), psl_domain(host@)),
{
    if host.unicode_len() == 0 || is_sso_host(host) {
        return WindowRoute::Popup;
    }
    let same_host = match base_host {
        Some(b) => str_eq(b, host),
        None => false,
    };
    if same_host {
        return WindowRoute::InPlace;
    }
    let host_domain = registrable_domain(host);
    route_for(host, base_host, base_domain, host_domain)
}

/// The script that makes a webview navigate to `url`:
/// `window.location.href = '<url>'`, with back slashes and single quotes of
/// `url` escaped.
pub open spec fn navigate_script(url: Seq<char>) -> Seq<char> {
    "window.location.href = '"@ + replace(replace(url, "\\"@, "\\\\"@), "'"@, "\\'"@) + "'"@
}

/// The script that makes the app's own webview navigate to `url`.
pub fn navigate_in_place_js(url: &str) -> (r: String)
    ensures
        r@ == navigate_script(url@),
{
    proof {
        reveal_strlit("\\");
        reveal_strlit("'");
    }
    let a = replace_str(url, "\\", "\\\\");
    let b = replace_str(a.as_str(), "'", "\\'");
    let mut r = String::from_str("window.location.href = '");
    r.append(b.as_str());
    r.append("'");
    r
}

/// The scheme and the host of `s` parsed as an absolute URL, or the text of
/// the parse error.
pub uninterp spec fn parsed_url(s: Seq<char>) -> Result<(Seq<char>, Option<Seq<char>>), Seq<char>>;

/// The characters of a parse result.
pub open spec fn url_view(r: Result<(String, Option<String>), String>) -> Result<
    (Seq<char>, Option<Seq<char>>),
    Seq<char>,
> {
    match r {
        Ok((scheme, host)) => Ok((scheme@, opt_text(host))),
        Err(e) => Err(e@),
    }
}

/// `url::Url::parse`, read back through `scheme` and `host_str`, or the
/// parse error's text. The WHATWG parsing rules are not spelled out: the
/// result is named, a function of `s` alone.
#[verifier::external_body]
pub(crate) fn parse_url(s: &str) -> (r: Result<(String, Option<String>), String>)
    ensures
        url_view(r) == parsed_url(s@),
{
    match url::Url::parse(s) {
        Ok(u) => Ok(
            (
                u.scheme().to_string(),
                match u.host_str() {
                    Some(h) => Some(h.to_string()),
                    None => None,
                },
            ),
        ),
        Err(e) => Err(e.to_string()),
    }
}

/// The host of `s` where it parses as a URL with a host.
pub open spec fn url_host(s: Seq<char>) -> Option<Seq<char>> {
    match parsed_url(s) {
        Ok((_, h)) => h,
        Err(_) => None,
    }
}

/// The host of `s` where it parses as a URL with a host.
pub fn host_of(s: &str) -> (r: Option<String>)
    ensures
        opt_text(r) == url_host(s@),
{
    match parse_url(s) {
        Ok((_, h)) => h,
        Err(_) => None,
    }
}

/// `href` resolved against the absolute URL `base`, in serialized form;
/// `None` where `base` does not parse or `href` does not resolve.
pub uninterp spec fn joined_url(base: Seq<char>, href: Seq<char>) -> Option<Seq<char>>;

/// `url::Url::join` of `href` onto `base` parsed with `url::Url::parse`,
/// serialized with `to_string`. The resolution rules are not spelled out:
/// the result is named, a function of `base` and `href` alone.
#[verifier::external_body]
pub(crate) fn join_url(base: &str, href: &str) -> (r: Option<String>)
    ensures
        opt_text(r) == joined_url(base@, href@),
{
    match url::Url::parse(base) {
        Ok(u) => match u.join(href) {
            Ok(j) => Some(j.to_string()),
            Err(_) => None,
        },
        Err(_) => None,
    }
}

/// Whether a page's blank-first popup for `url`, opened by the app at
/// `app_url`, opens in the app: for sign-in providers and for the app's own
/// host or registrable domain; an error where `url` does not parse.
pub open spec fn blank_popup_in_app(app_url: Seq<char>, url: Seq<char>) -> Result<bool, Seq<char>> {
    match parsed_url(url) {
        Err(e) => Err(e),
        Ok((_, h)) => {
            let host = match h {
                Some(x) => x,
                None => ""@,
            };
            let base_host = url_host(app_url);
            let base_domain = match base_host {
                Some(b) => psl_domain(b),
                None => None,
            };
            let same_site = base_host == Some(host) || same_domain(base_domain, psl_domain(host));
            Ok(sso_host(host) || same_site)
        },
    }
}

/// Whether a page's blank-first popup for `url`, opened by the app at
/// `app_url`, opens in the app (see [`blank_popup_in_app`]).
pub fn popup_opens_in_app(app_url: &str, url: &str) -> (r: Result<bool, String>)
    ensures
        match blank_popup_in_app(app_url@, url@) {
            Ok(b) => r == Ok::<bool, String>(b),
            Err(e) => r matches Err(m) && m@ == e,
        },
{
    proof {
        reveal_strlit("");
    }
    let parsed = parse_url(url);
    let host = match parsed {
        Err(e) => {
            return Err(e);
        },
        Ok((_, h)) => match h {
            Some(x) => x,
            None => String::new(),
        },
    };
    let ghost hv: Seq<char> = match parsed_url(url@) {
        Ok((_, h)) => match h {
            Some(x) => x,
            None => ""@,
        },
        Err(_) => ""@,
    };
    assert(host@ == hv);
    let base_host = host_of(app_url);
    let base_domain = match &base_host {
        Some(b) => registrable_domain(b.as_str()),
        None => None,
    };
    assert(opt_view(base_domain) == match url_host(app_url@) {
        Some(b) => psl_domain(b),
        None => None,
    });
    let same_host = match &base_host {
        Some(b) => str_eq(b.as_str(), host.as_str()),
        None => false,
    };
    assert(same_host == (url_host(app_url@) == Some(hv)));
    let same_site = same_host || match (base_domain, registrable_domain(host.as_str())) {
        (Some(b), Some(n)) => str_eq(b, n),
        _ => false,
    };
    Ok(is_sso_host(host.as_str()) || same_site)
}

/// Law: the sign-in providers `accounts.google.com`, `appleid.apple.com`,
/// `login.microsoftonline.com`, `github.com` and every host under
/// `github.com` are sign-in hosts, and a new window for one of them opens as
/// an in-app popup whatever the app's own host and domain.
pub proof fn law_sso_hosts_open_in_app(
    prefix: Seq<char>,
    base_host: Option<Seq<char>>,
    base_domain: Option<Seq<char>>,
    host_domain: Option<Seq<char>>,
)
    ensures
        sso_host("accounts.google.com"@),
        sso_host("appleid.apple.com"@),
        sso_host("login.microsoftonline.com"@),
        sso_host("github.com"@),
        sso_host(prefix + ".github.com"@),
        window_route("accounts.google.com"@, base_host, base_domain, host_domain) == WindowRoute::Popup,
        window_route("appleid.apple.com"@, base_host, base_domain, host_domain) == WindowRoute::Popup,
        window_route("login.microsoftonline.com"@, base_host, base_domain, host_domain)
            == WindowRoute::Popup,
        window_route("github.com"@, base_host, base_domain, host_domain) == WindowRoute::Popup,
        window_route(prefix + ".github.com"@, base_host, base_domain, host_domain) == WindowRoute::Popup,
{
    let h = prefix + ".github.com"@;
    assert(h.subrange(h.len() - ".github.com"@.len(), h.len() as int) =~= ".github.com"@);
}

/// Law: where a new window opens. A window with no host, or for a sign-in
/// host, is an in-app popup; otherwise one for the app's own host replaces
/// the page; one for another host of the app's registrable domain is an
/// in-app popup; and one for any other site, or where either domain is
/// unknown, goes to the system browser.
pub proof fn law_window_routes(
    host: Seq<char>,
    base_host: Option<Seq<char>>,
    base_domain: Option<Seq<char>>,
    host_domain: Option<Seq<char>>,
)
    ensures
        host.len() == 0 || sso_host(host) ==> window_route(host, base_host, base_domain, host_domain)
            == WindowRoute::Popup,
        host.len() > 0 && !sso_host(host) && base_host == Some(host) ==> window_route(
            host,
            base_host,
            base_domain,
            host_domain,
        ) == WindowRoute::InPlace,
        host.len() > 0 && !sso_host(host) && base_host != Some(host) && base_domain is Some
            && base_domain == host_domain ==> window_route(host, base_host, base_domain, host_domain)
            == WindowRoute::Popup,
        host.len() > 0 && !sso_host(host) && base_host != Some(host) && (base_domain is None
            || host_domain is None || base_domain != host_domain) ==> window_route(
            host,
            base_host,
            base_domain,
            host_domain,
        ) == WindowRoute::Browser,
{
}

/// Law: a blank-first popup opens in the app exactly for a sign-in host,
/// the app's own host, or a host of the app's registrable domain.
pub proof fn law_blank_popup_in_app(app_url: Seq<char>, url: Seq<char>)
    ensures
        match parsed_url(url) {
            Err(e) => blank_popup_in_app(app_url, url) == Err::<bool, Seq<char>>(e),
            Ok((_, h)) => {
                let host = match h {
                    Some(x) => x,
                    None => ""@,
                };
                let bd = match url_host(app_url) {
                    Some(b) => psl_domain(b),
                    None => None,
                };
                blank_popup_in_app(app_url, url) == Ok::<bool, Seq<char>>(
                    sso_host(host) || url_host(app_url) == Some(host) || (bd is Some && bd == psl_domain(
                        host,
                    )),
                )
            },
        },
{
}

/// Law: a JSON string literal is quoted, and it escapes exactly the
/// characters that cannot stand in it as they are: a quote, a back slash or
/// a control character is written as a back slash and at least one more
/// character; any other character is written as itself.
pub proof fn law_json_literal(s: Seq<char>, c: char)
    ensures
        json_string_literal(s).len() >= 2,
        json_string_literal(s)[0] == '"',
        json_string_literal(s).last() == '"',
        (c == '"' || c == '\\' || (c as u32) < 0x20) ==> json_escape(c).len() >= 2 && json_escape(c)[0]
            == '\\',
        !(c == '"' || c == '\\' || (c as u32) < 0x20) ==> json_escape(c) == seq![c],
{
}

} // verus!
