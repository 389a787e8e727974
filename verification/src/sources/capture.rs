//! Automatic credential capture: which cookie completes each source's embedded
//! login, and how the captured value is assembled. Free of any browser or UI
//! dependency -- callers hand in the cookies they read back.

use vstd::prelude::*;

use crate::model::opt_view;
use crate::text::{joined, join, static_strs, str_eq};

verus! {

/// Synthetic cookie the injected page script writes once it observes a bearer
/// token bound for Packt's API; never sent to a real server.
pub const PACKT_TOKEN_SIGNAL_COOKIE: &'static str = "__library_captured_token";

/// Synthetic cookie the injected "I'm logged in" banner button sets.
pub const MANUAL_READY_SIGNAL_COOKIE: &'static str = "__library_capture_ready";

/// How a source's capture completes.
#[derive(Clone, Copy)]
pub enum Completion {
    /// Completes as soon as this cookie appears; its value is the credential.
    AutoCookie(&'static str),
    /// Completes once the banner was clicked; the value is this cookie's value.
    ManualCookie(&'static str),
    /// Completes once the banner was clicked; the value is every real cookie
    /// joined into a `name=value; name=value` jar string.
    ManualCookieJar,
    /// Completes as soon as the page script reports a sniffed bearer token.
    SniffedBearerToken,
}

/// How to capture one source's credential through an embedded login window.
pub struct CaptureSpec {
    /// The source's identifier (`humble_bundle`, `packt`, `manning`).
    pub source: &'static str,
    /// Name shown in the login window's title.
    pub label: &'static str,
    /// Page opened in the login window.
    pub login_url: &'static str,
    /// Cookie-store domains read back after every poll.
    pub cookie_domains: Vec<&'static str>,
    pub completion: Completion,
}

/// The Humble Bundle capture: manual confirmation, then `_simpleauth_sess`.
pub open spec fn is_humble_capture(c: CaptureSpec) -> bool {
    &&& c.source@ == "humble_bundle"@
    &&& c.label@ == "Humble Bundle"@
    &&& c.login_url@ == "https://www.humblebundle.com/login"@
    &&& static_strs(c.cookie_domains@) == seq!["https://www.humblebundle.com"@]
    &&& c.completion matches Completion::ManualCookie(name) && name@ == "_simpleauth_sess"@
}

/// The Packt capture: the sniffed bearer token.
pub open spec fn is_packt_capture(c: CaptureSpec) -> bool {
    &&& c.source@ == "packt"@
    &&& c.label@ == "Packt"@
    &&& c.login_url@ == "https://subscription.packtpub.com/login"@
    &&& static_strs(c.cookie_domains@) == seq!["https://subscription.packtpub.com"@, "https://www.packtpub.com"@]
    &&& c.completion is SniffedBearerToken
}

/// The Manning capture: manual confirmation, then the whole cookie jar.
pub open spec fn is_manning_capture(c: CaptureSpec) -> bool {
    &&& c.source@ == "manning"@
    &&& c.label@ == "Manning"@
    &&& c.login_url@ == "https://www.manning.com/dashboard"@
    &&& static_strs(c.cookie_domains@) == seq!["https://www.manning.com"@, "https://login.manning.com"@]
    &&& c.completion is ManualCookieJar
}

/// Humble Bundle: `_simpleauth_sess` also exists for anonymous visitors, so
/// capture waits for the user's explicit confirmation.
pub fn humble_capture() -> (r: CaptureSpec)
    ensures
        is_humble_capture(r),
{
    let domains: Vec<&'static str> = vec!["https://www.humblebundle.com"];
    assert(static_strs(domains@) =~= seq!["https://www.humblebundle.com"@]);
    CaptureSpec {
        source: "humble_bundle",
        label: "Humble Bundle",
        login_url: "https://www.humblebundle.com/login",
        cookie_domains: domains,
        completion: Completion::ManualCookie("_simpleauth_sess"),
    }
}

/// Packt: completes from the sniffed bearer token.
pub fn packt_capture() -> (r: CaptureSpec)
    ensures
        is_packt_capture(r),
{
    let domains: Vec<&'static str> = vec!["https://subscription.packtpub.com", "https://www.packtpub.com"];
    assert(static_strs(domains@) =~= seq!["https://subscription.packtpub.com"@, "https://www.packtpub.com"@]);
    CaptureSpec {
        source: "packt",
        label: "Packt",
        login_url: "https://subscription.packtpub.com/login",
        cookie_domains: domains,
        completion: Completion::SniffedBearerToken,
    }
}

/// Manning: no single well-known session cookie, so the whole jar is captured
/// once the user confirms.
pub fn manning_capture() -> (r: CaptureSpec)
    ensures
        is_manning_capture(r),
{
    let domains: Vec<&'static str> = vec!["https://www.manning.com", "https://login.manning.com"];
    assert(static_strs(domains@) =~= seq!["https://www.manning.com"@, "https://login.manning.com"@]);
    CaptureSpec {
        source: "manning",
        label: "Manning",
        login_url: "https://www.manning.com/dashboard",
        cookie_domains: domains,
        completion: Completion::ManualCookieJar,
    }
}

/// The capture specifications, in lookup order.
pub open spec fn capture_sources() -> Seq<Seq<char>> {
    seq!["humble_bundle"@, "packt"@, "manning"@]
}

/// Looks up the capture spec for a source identifier.
pub fn spec_for(source: &str) -> (r: Option<CaptureSpec>)
    ensures
        r is Some <==> capture_sources().contains(source@),
        r matches Some(spec) ==> spec.source@ == source@,
        source@ == "humble_bundle"@ ==> (r matches Some(spec) && is_humble_capture(spec)),
        source@ == "packt"@ ==> (r matches Some(spec) && is_packt_capture(spec)),
        source@ == "manning"@ ==> (r matches Some(spec) && is_manning_capture(spec)),
{
    let humble = humble_capture();
    let packt = packt_capture();
    let manning = manning_capture();
    proof {
        reveal_strlit("humble_bundle");
        reveal_strlit("packt");
        reveal_strlit("manning");
        assert("humble_bundle"@.len() != "manning"@.len());
        assert("packt"@.len() != "manning"@.len());
        assert("humble_bundle"@.len() != "packt"@.len());
    }
    if str_eq(humble.source, source) {
        Some(humble)
    } else if str_eq(packt.source, source) {
        Some(packt)
    } else if str_eq(manning.source, source) {
        Some(manning)
    } else {
        proof {
            reveal_strlit("humble_bundle");
            reveal_strlit("packt");
            reveal_strlit("manning");
            assert(!(capture_sources()[0] == source@));
            assert(!(capture_sources()[1] == source@));
            assert(!(capture_sources()[2] == source@));
        }
        None
    }
}


/// One `(name, value)` cookie pair read back from the login window.
pub type CookiePair = (String, String);

/// The value of the first cookie named `name`, if any.
pub open spec fn cookie_value(cookies: Seq<CookiePair>, name: Seq<char>) -> Option<Seq<char>>
    decreases cookies.len(),
{
    if cookies.len() == 0 {
        None
    } else if cookies[0].0@ == name {
        Some(cookies[0].1@)
    } else {
        cookie_value(cookies.drop_first(), name)
    }
}

/// The value of the first cookie named `name`.
pub fn find_cookie<'a>(cookies: &'a [CookiePair], name: &str) -> (r: Option<&'a String>)
    ensures
        match r {
            Some(v) => cookie_value(cookies@, name@) == Some(v@),
            None => cookie_value(cookies@, name@) is None,
        },
{
    let mut i: usize = 0;
    assert(cookies@.subrange(0, cookies@.len() as int) =~= cookies@);
    while i < cookies.len()
        invariant
            i <= cookies@.len(),
            cookie_value(cookies@, name@) == cookie_value(cookies@.subrange(i as int, cookies@.len() as int), name@),
        decreases cookies@.len() - i,
    {
        let ghost rest = cookies@.subrange(i as int, cookies@.len() as int);
        assert(rest.drop_first() =~= cookies@.subrange(i + 1, cookies@.len() as int));
        if str_eq(cookies[i].0.as_str(), name) {
            return Some(&cookies[i].1);
        }
        i = i + 1;
    }
    None
}

/// The "I'm logged in" banner has been clicked.
pub open spec fn manually_confirmed(cookies: Seq<CookiePair>) -> bool {
    cookie_value(cookies, MANUAL_READY_SIGNAL_COOKIE@) is Some
}

/// True once the "I'm logged in" banner has been clicked.
pub fn manual_ready(cookies: &[CookiePair]) -> (r: bool)
    ensures
        r == manually_confirmed(cookies@),
{
    find_cookie(cookies, MANUAL_READY_SIGNAL_COOKIE).is_some()
}

/// A cookie name used only internally by capture.
pub open spec fn is_signal_cookie(name: Seq<char>) -> bool {
    name == MANUAL_READY_SIGNAL_COOKIE@ || name == PACKT_TOKEN_SIGNAL_COOKIE@
}

/// `name=value` for every real (non-signal) cookie, in order.
pub open spec fn jar_entries(cookies: Seq<CookiePair>) -> Seq<Seq<char>>
    decreases cookies.len(),
{
    if cookies.len() == 0 {
        Seq::empty()
    } else {
        let rest = jar_entries(cookies.drop_last());
        let (name, value) = cookies.last();
        if is_signal_cookie(name@) {
            rest
        } else {
            rest.push(name@ + "="@ + value@)
        }
    }
}

/// The cookie jar string a raw `Cookie` header carries.
pub open spec fn cookie_jar(cookies: Seq<CookiePair>) -> Seq<char> {
    joined(jar_entries(cookies), "; "@)
}

/// Joins every real cookie (the signal cookies excluded) into the
/// `name=value; name=value` jar string a browser would send.
pub fn build_cookie_jar(cookies: &[CookiePair]) -> (r: String)
    ensures
        r@ == cookie_jar(cookies@),
{
    let mut entries: Vec<String> = Vec::new();
    let mut i: usize = 0;
    while i < cookies.len()
        invariant
            i <= cookies@.len(),
            entries@.map_values(|p: String| p@) == jar_entries(cookies@.take(i as int)),
        decreases cookies@.len() - i,
    {
        assert(cookies@.take(i + 1).drop_last() =~= cookies@.take(i as int));
        let name = &cookies[i].0;
        let value = &cookies[i].1;
        if !str_eq(name.as_str(), MANUAL_READY_SIGNAL_COOKIE) && !str_eq(name.as_str(), PACKT_TOKEN_SIGNAL_COOKIE) {
            let mut entry = name.clone();
            entry.append("=");
            entry.append(value.as_str());
            let ghost before = entries@;
            entries.push(entry);
            assert(entries@.map_values(|p: String| p@) =~= before.map_values(|p: String| p@).push(name@ + "="@ + value@));
        }
        i = i + 1;
    }
    assert(cookies@.take(cookies@.len() as int) =~= cookies@);
    join(&entries, "; ")
}

/// The credential captured so far, or `None` while login/confirmation is
/// still pending.
pub open spec fn captured_value(completion: Completion, cookies: Seq<CookiePair>) -> Option<Seq<char>> {
    match completion {
        Completion::AutoCookie(name) => cookie_value(cookies, name@),
        Completion::ManualCookie(name) => if manually_confirmed(cookies) {
            cookie_value(cookies, name@)
        } else {
            None
        },
        Completion::ManualCookieJar => if manually_confirmed(cookies) {
            Some(cookie_jar(cookies))
        } else {
            None
        },
        Completion::SniffedBearerToken => cookie_value(cookies, PACKT_TOKEN_SIGNAL_COOKIE@),
    }
}

/// Given the cookies currently in the login window's jar, returns the
/// assembled credential once capture is complete, or `None` while login (or
/// the user's confirmation) is still pending.
pub fn evaluate_capture(spec: &CaptureSpec, cookies: &[CookiePair]) -> (r: Option<String>)
    ensures
        opt_view(r) == captured_value(spec.completion, cookies@),
{
    match spec.completion {
        Completion::AutoCookie(name) => match find_cookie(cookies, name) {
            Some(v) => Some(v.clone()),
            None => None,
        },
        Completion::ManualCookie(name) => {
            if manual_ready(cookies) {
                match find_cookie(cookies, name) {
                    Some(v) => Some(v.clone()),
                    None => None,
                }
            } else {
                None
            }
        },
        Completion::ManualCookieJar => {
            if manual_ready(cookies) {
                Some(build_cookie_jar(cookies))
            } else {
                None
            }
        },
        Completion::SniffedBearerToken => match find_cookie(cookies, PACKT_TOKEN_SIGNAL_COOKIE) {
            Some(v) => Some(v.clone()),
            None => None,
        },
    }
}

/// The page script for sources that complete through the manual banner.
pub const BANNER_JS: &'static str = r#"(function () {
  var READY_COOKIE = "__library_capture_ready";
  function addBanner() {
    if (document.getElementById("library-capture-banner") || !document.body) return;
    var btn = document.createElement("button");
    btn.id = "library-capture-banner";
    btn.textContent = "Library: I'm logged in \u2014 capture now";
    btn.style.cssText =
      "position:fixed;bottom:16px;right:16px;z-index:2147483647;padding:10px 16px;" +
      "background:#1a73e8;color:#fff;border:none;border-radius:6px;font:14px sans-serif;" +
      "cursor:pointer;box-shadow:0 2px 8px rgba(0,0,0,.35);";
    btn.onclick = function () {
      document.cookie = READY_COOKIE + "=1; path=/; max-age=3600";
      btn.textContent = "Captured \u2014 you can close this window";
      btn.disabled = true;
      btn.style.opacity = "0.6";
    };
    document.body.appendChild(btn);
  }
  if (document.readyState === "loading") {
    document.addEventListener("DOMContentLoaded", addBanner);
  } else {
    addBanner();
  }
  new MutationObserver(addBanner).observe(document.documentElement, { childList: true, subtree: true });
})();"#;

/// The page script that reports an `Authorization: Bearer` header bound for
/// packtpub.com through [`PACKT_TOKEN_SIGNAL_COOKIE`]; it filters by host so a
/// third-party script's own bearer token cannot clobber the real one.
pub const TOKEN_SNIFF_JS: &'static str = r#"(function () {
  var TOKEN_COOKIE = "__library_captured_token";
  var HOST_FILTER = "packtpub.com";
  function reportAuthHeader(url, value) {
    if (!value || !url || String(url).indexOf(HOST_FILTER) === -1) return;
    var m = /^Bearer\s+(.+)$/i.exec(String(value).trim());
    if (!m) return;
    document.cookie = TOKEN_COOKIE + "=" + m[1] + "; path=/; max-age=3600";
  }
  var origOpen = XMLHttpRequest.prototype.open;
  XMLHttpRequest.prototype.open = function (method, url) {
    this.__library_url = url;
    return origOpen.apply(this, arguments);
  };
  var origSetHeader = XMLHttpRequest.prototype.setRequestHeader;
  XMLHttpRequest.prototype.setRequestHeader = function (name, value) {
    if (/^authorization$/i.test(name)) reportAuthHeader(this.__library_url, value);
    return origSetHeader.apply(this, arguments);
  };
  var origFetch = window.fetch;
  if (origFetch) {
    window.fetch = function (input, init) {
      try {
        var url = typeof input === "string" ? input : (input && input.url);
        var headers = init && init.headers;
        if (headers) {
          if (typeof Headers !== "undefined" && headers instanceof Headers) {
            reportAuthHeader(url, headers.get("authorization"));
          } else {
            var key = Object.keys(headers).find(function (k) {
              return /^authorization$/i.test(k);
            });
            if (key) reportAuthHeader(url, headers[key]);
          }
        } else if (input && typeof input !== "string" && input.headers && input.headers.get) {
          reportAuthHeader(url, input.headers.get("authorization"));
        }
      } catch (e) {}
      return origFetch.apply(this, arguments);
    };
  }
})();"#;

/// The script injected for a completion mode.
pub open spec fn script_for(completion: Completion) -> Seq<char> {
    match completion {
        Completion::ManualCookie(_) => BANNER_JS@,
        Completion::ManualCookieJar => BANNER_JS@,
        Completion::SniffedBearerToken => TOKEN_SNIFF_JS@,
        Completion::AutoCookie(_) => Seq::empty(),
    }
}

/// The script to inject into the login window: the "I'm logged in" banner
/// only for sources that complete through it, the bearer-token sniffer only
/// for the sniffed-token source, nothing for an automatic cookie.
pub fn injected_script(spec: &CaptureSpec) -> (r: String)
    ensures
        r@ == script_for(spec.completion),
{
    match spec.completion {
        Completion::ManualCookie(_) => BANNER_JS.to_owned(),
        Completion::ManualCookieJar => BANNER_JS.to_owned(),
        Completion::SniffedBearerToken => TOKEN_SNIFF_JS.to_owned(),
        Completion::AutoCookie(_) => String::new(),
    }
}

/// What one poll of the login window decided.
pub enum PollDecision {
    /// Capture completed with this credential.
    Captured(String),
    /// The window was closed, or time ran out, before capture completed.
    Cancelled,
    /// Keep polling.
    KeepWaiting,
}

/// One step of the capture loop. `window_open`: the login window still exists;
/// `polled`: the cookies read from every domain, or `None` when reading them
/// failed this time (a transient miss); `deadline_passed`: the overall time
/// limit has been reached. A closed window cancels first; a completed capture
/// wins over the deadline.
pub fn capture_poll_step(
    spec: &CaptureSpec,
    window_open: bool,
    polled: Option<&[CookiePair]>,
    deadline_passed: bool,
) -> (r: PollDecision)
    ensures
        !window_open ==> r is Cancelled,
        window_open ==> match polled {
            Some(cookies) if captured_value(spec.completion, cookies@) is Some =>
                r matches PollDecision::Captured(v) && Some(v@) == captured_value(spec.completion, cookies@),
            _ => if deadline_passed { r is Cancelled } else { r is KeepWaiting },
        },
{
    if !window_open {
        return PollDecision::Cancelled;
    }
    if let Some(cookies) = polled {
        if let Some(value) = evaluate_capture(spec, cookies) {
            return PollDecision::Captured(value);
        }
    }
    if deadline_passed {
        PollDecision::Cancelled
    } else {
        PollDecision::KeepWaiting
    }
}


/// The jar holds only real cookies: every entry is `name=value` of some cookie
/// whose name is not a signal cookie.
pub proof fn law_jar_excludes_signal_cookies(cookies: Seq<CookiePair>)
    ensures
        forall|k: int|
            0 <= k < jar_entries(cookies).len() ==> exists|i: int|
                0 <= i < cookies.len() && !is_signal_cookie(cookies[i].0@) && #[trigger] jar_entries(cookies)[k] == cookies[i].0@ + "="@
                    + cookies[i].1@,
    decreases cookies.len(),
{
    if cookies.len() > 0 {
        let prev = cookies.drop_last();
        law_jar_excludes_signal_cookies(prev);
        assert forall|k: int|
            0 <= k < jar_entries(cookies).len() implies exists|i: int|
                0 <= i < cookies.len() && !is_signal_cookie(cookies[i].0@) && #[trigger] jar_entries(cookies)[k] == cookies[i].0@
                    + "="@ + cookies[i].1@ by {
            if k < jar_entries(prev).len() {
                assert(jar_entries(cookies)[k] == jar_entries(prev)[k]);
                let i = choose|i: int|
                    0 <= i < prev.len() && !is_signal_cookie(prev[i].0@) && #[trigger] jar_entries(prev)[k] == prev[i].0@ + "="@ + prev[i].1@;
                assert(prev[i] == cookies[i]);
            } else {
                let i = cookies.len() - 1;
                assert(cookies[i] == cookies.last());
            }
        }
    }
}

/// A source that completes through the banner captures nothing until the
/// banner is clicked, whatever session cookies are already present (a guest
/// session cookie, for instance).
pub proof fn law_manual_completion_waits_for_confirmation(completion: Completion, cookies: Seq<CookiePair>)
    requires
        completion is ManualCookie || completion is ManualCookieJar,
        !manually_confirmed(cookies),
    ensures
        captured_value(completion, cookies) is None,
{
}

/// A source that completes on its own cookie needs no confirmation: the
/// cookie's value is captured as soon as it appears.
pub proof fn law_auto_completion_needs_no_confirmation(name: &'static str, cookies: Seq<CookiePair>)
    ensures
        captured_value(Completion::AutoCookie(name), cookies) == cookie_value(cookies, name@),
{
}

} // verus!
