//! Built-in pages, how a start URL is loaded, and the plan a window starts from.

use vstd::prelude::*;
use vstd::string::StrSliceExecFns;
use vstd::string::StringExecFns;

use crate::text::{append_str, chars_of, contains, occurs_at_exec, push_char, str_contains, str_eq};

verus! {

/// The built-in start page shown in new tabs: Catppuccin Mocha colours, content
/// centred with flexbox, four bookmark cards.
pub open spec fn start_page_spec() -> Seq<char> {
    "<!DOCTYPE html><html lang=\"en\"><head><meta charset=\"UTF-8\"><title>aris — new tab</title><style>html, body { margin:0; height:100%; }body { background:#1e1e2e; font-family:system-ui,sans-serif; color:#cdd6f4; display:flex; align-items:center; justify-content:center; }.wrap { max-width:640px; padding:0 24px; text-align:center; }h1 { color:#89b4fa; font-size:42px; margin:0 0 8px; }p.sub { color:#6c7086; margin:0 0 32px; }.bookmarks { display:flex; flex-wrap:wrap; justify-content:center; }a.card { display:block; width:240px; margin:6px; background:#313244; color:#cdd6f4; text-decoration:none; padding:16px; border-radius:10px; }a.card:hover { background:#45475a; }.card .t { color:#74c7ec; font-weight:600; }.card .d { color:#6c7086; font-size:13px; margin-top:4px; }.hint { color:#6c7086; font-size:13px; margin-top:32px; }kbd { background:#313244; padding:2px 6px; border-radius:4px; color:#74c7ec; }</style></head><body><div class=\"wrap\"><h1>aris</h1><p class=\"sub\">a browser engine built on servo's pure-Rust front-end</p><div class=\"bookmarks\"><a class=\"card\" href=\"https://example.com\"><span class=\"t\">example.com</span><div class=\"d\">test page</div></a><a class=\"card\" href=\"about:about\"><span class=\"t\">about:about</span><div class=\"d\">aris info</div></a><a class=\"card\" href=\"https://servo.org\"><span class=\"t\">servo.org</span><div class=\"d\">the engine's roots</div></a><a class=\"card\" href=\"https://www.rust-lang.org\"><span class=\"t\">rust-lang.org</span><div class=\"d\">the language</div></a></div><p class=\"hint\">Type a URL or search in the address bar, or press <kbd>Ctrl+L</kbd>.</p></div></body></html>"@
}

/// The start page document.
pub fn start_page() -> (r: String)
    ensures
        r@ == start_page_spec(),
{
    String::from_str("<!DOCTYPE html><html lang=\"en\"><head><meta charset=\"UTF-8\"><title>aris — new tab</title><style>html, body { margin:0; height:100%; }body { background:#1e1e2e; font-family:system-ui,sans-serif; color:#cdd6f4; display:flex; align-items:center; justify-content:center; }.wrap { max-width:640px; padding:0 24px; text-align:center; }h1 { color:#89b4fa; font-size:42px; margin:0 0 8px; }p.sub { color:#6c7086; margin:0 0 32px; }.bookmarks { display:flex; flex-wrap:wrap; justify-content:center; }a.card { display:block; width:240px; margin:6px; background:#313244; color:#cdd6f4; text-decoration:none; padding:16px; border-radius:10px; }a.card:hover { background:#45475a; }.card .t { color:#74c7ec; font-weight:600; }.card .d { color:#6c7086; font-size:13px; margin-top:4px; }.hint { color:#6c7086; font-size:13px; margin-top:32px; }kbd { background:#313244; padding:2px 6px; border-radius:4px; color:#74c7ec; }</style></head><body><div class=\"wrap\"><h1>aris</h1><p class=\"sub\">a browser engine built on servo's pure-Rust front-end</p><div class=\"bookmarks\"><a class=\"card\" href=\"https://example.com\"><span class=\"t\">example.com</span><div class=\"d\">test page</div></a><a class=\"card\" href=\"about:about\"><span class=\"t\">about:about</span><div class=\"d\">aris info</div></a><a class=\"card\" href=\"https://servo.org\"><span class=\"t\">servo.org</span><div class=\"d\">the engine's roots</div></a><a class=\"card\" href=\"https://www.rust-lang.org\"><span class=\"t\">rust-lang.org</span><div class=\"d\">the language</div></a></div><p class=\"hint\">Type a URL or search in the address bar, or press <kbd>Ctrl+L</kbd>.</p></div></body></html>")
}

/// Where the document for a start URL comes from, by the URL's scheme.
#[derive(Debug, PartialEq, Eq, Structural)]
pub enum PageSource {
    /// Read from the local file the URL names.
    File,
    /// Generated in the browser (`about:` and `data:`).
    Builtin,
    /// Fetched over the network; a loading page shows meanwhile.
    Remote,
}

/// The source for a URL with scheme `scheme`.
pub open spec fn page_source_spec(scheme: Seq<char>) -> PageSource {
    if scheme == "file"@ {
        PageSource::File
    } else if scheme == "about"@ || scheme == "data"@ {
        PageSource::Builtin
    } else {
        PageSource::Remote
    }
}

/// Where the document for a start URL with scheme `scheme` comes from.
pub fn page_source(scheme: &str) -> (r: PageSource)
    ensures
        r == page_source_spec(scheme@),
{
    if str_eq(scheme, "file") {
        PageSource::File
    } else if str_eq(scheme, "about") || str_eq(scheme, "data") {
        PageSource::Builtin
    } else {
        PageSource::Remote
    }
}

/// Window size in logical pixels.
#[derive(Clone, Copy)]
pub struct RenderConfig {
    pub width: u32,
    pub height: u32,
}

/// How a browser window starts.
pub struct WindowLaunch {
    /// Document of the first tab until a load replaces it.
    pub initial_html: String,
    /// URL of that document, if it has one.
    pub initial_url: Option<String>,
    /// Start fetching `initial_url` at once.
    pub navigate_initial: bool,
    /// With no URL given, reopen the last saved session.
    pub restore_session: bool,
    /// Inner size of the window, in logical pixels.
    pub window_width: u32,
    pub window_height: u32,
    /// Title of the first tab.
    pub tab_title: String,
}

/// The view of an optional string.
pub open spec fn opt_view(o: Option<&str>) -> Option<Seq<char>> {
    match o {
        Some(s) => Some(s@),
        None => None,
    }
}

/// The launch of a window showing `initial_html` (from `initial_url`, if any); a
/// remote start URL is fetched at once, and with no URL the saved session returns.
pub fn plan_window(
    initial_html: &str,
    initial_url: Option<&str>,
    fetch_remote: bool,
    config: &RenderConfig,
) -> (w: WindowLaunch)
    ensures
        w.initial_html@ == initial_html@,
        (match w.initial_url {
            Some(u) => Some(u@),
            None => None,
        }) == opt_view(initial_url),
        w.navigate_initial == (fetch_remote && initial_url is Some),
        w.restore_session == (initial_url is None),
        w.window_width == config.width,
        w.window_height == config.height,
        w.tab_title@ == "New Tab"@,
{
    WindowLaunch {
        initial_html: String::from_str(initial_html),
        initial_url: match initial_url {
            Some(u) => Some(String::from_str(u)),
            None => None,
        },
        navigate_initial: fetch_remote && initial_url.is_some(),
        restore_session: initial_url.is_none(),
        window_width: config.width,
        window_height: config.height,
        tab_title: String::from_str("New Tab"),
    }
}

/// The window for the document `html`: no URL, nothing fetched, the last session
/// restored, sized from `config`.
pub fn run_window(html: &str, config: &RenderConfig) -> (w: WindowLaunch)
    ensures
        w.initial_html@ == html@,
        w.initial_url is None,
        !w.navigate_initial,
        w.restore_session,
        w.window_width == config.width,
        w.window_height == config.height,
        w.tab_title@ == "New Tab"@,
{
    plan_window(html, None, false, config)
}

/// The window for a URL the user gave, once normalized to `url` with scheme
/// `scheme`: a `file:` URL shows `document` (the file's text) and an `about:` or
/// `data:` URL shows `document` (the page built for it), nothing fetched; any
/// other URL shows the loading page for `escaped_url` (the URL, HTML-escaped) and
/// is fetched at once.
pub fn run_window_url(
    url: &str,
    scheme: &str,
    document: &str,
    escaped_url: &str,
    config: &RenderConfig,
) -> (w: WindowLaunch)
    ensures
        w.initial_html@ == (if page_source_spec(scheme@) == PageSource::Remote {
            loading_page_spec(escaped_url@)
        } else {
            document@
        }),
        (match w.initial_url {
            Some(u) => Some(u@),
            None => None,
        }) == Some(url@),
        w.navigate_initial == (page_source_spec(scheme@) == PageSource::Remote),
        !w.restore_session,
        w.window_width == config.width,
        w.window_height == config.height,
        w.tab_title@ == "New Tab"@,
{
    match page_source(scheme) {
        PageSource::Remote => {
            let html = loading_page(escaped_url);
            plan_window(html.as_str(), Some(url), true, config)
        },
        _ => plan_window(document, Some(url), false, config),
    }
}

/// Whether the output of the registry query for `AppsUseLightTheme` means dark mode:
/// only when it reports the value `0x0` (0 is dark, 1 is light; a missing value is
/// light).
pub fn is_os_dark_mode(out: &str) -> (dark: bool)
    ensures
        dark == contains(out@, "0x0"@),
{
    str_contains(out, "0x0")
}

/// The caret blinks once 530 ms have passed since its last toggle.
pub fn caret_blink_due(elapsed_ms: u64) -> (due: bool)
    ensures
        due == (elapsed_ms >= 530),
{
    elapsed_ms >= 530
}

/// The page shown while `url` loads; `escaped_url` is the URL with HTML special
/// characters escaped.
pub open spec fn loading_page_spec(escaped_url: Seq<char>) -> Seq<char> {
    "<!DOCTYPE html><html><head><title>Loading\u{2026}</title><style>body{font-family:system-ui,sans-serif;background:#1a1b26;color:#a9b1d6;padding:48px;text-align:center;}h1{color:#7aa2f7;}code{color:#7dcfff;}</style></head><body><h1>Loading\u{2026}</h1><p><code>"@
        + escaped_url + "</code></p></body></html>"@
}

/// The loading page for an (escaped) URL.
pub fn loading_page(escaped_url: &str) -> (r: String)
    ensures
        r@ == loading_page_spec(escaped_url@),
{
    let mut r = String::from_str(
        "<!DOCTYPE html><html><head><title>Loading\u{2026}</title><style>body{font-family:system-ui,sans-serif;background:#1a1b26;color:#a9b1d6;padding:48px;text-align:center;}h1{color:#7aa2f7;}code{color:#7dcfff;}</style></head><body><h1>Loading\u{2026}</h1><p><code>",
    );
    append_str(&mut r, escaped_url);
    append_str(&mut r, "</code></p></body></html>");
    r
}

// ── Replacing text ──────────────────────────────────────────

/// `s.replace(pat, rep)` for a non-empty `pat`: every non-overlapping occurrence,
/// found left to right, replaced.
pub open spec fn replace_all(s: Seq<char>, pat: Seq<char>, rep: Seq<char>) -> Seq<char>
    decreases s.len(),
{
    if pat.len() == 0 || s.len() < pat.len() {
        s
    } else if s.take(pat.len() as int) == pat {
        rep + replace_all(s.skip(pat.len() as int), pat, rep)
    } else {
        seq![s[0]] + replace_all(s.skip(1), pat, rep)
    }
}

/// Replaces every occurrence of the non-empty `pat` in `s` with `rep`.
pub fn replace_all_exec(s: &str, pat: &str, rep: &str) -> (r: String)
    requires
        pat@.len() > 0,
    ensures
        r@ == replace_all(s@, pat@, rep@),
{
    let v = chars_of(s);
    let p = chars_of(pat);
    let n = v.len();
    let pl = p.len();
    let mut out = String::new();
    let mut i: usize = 0;
    assert(v@.skip(0) =~= v@);
    assert(out@ + replace_all(v@, p@, rep@) =~= replace_all(v@, p@, rep@));
    while i < n
        invariant
            v@ == s@,
            p@ == pat@,
            n == v@.len(),
            pl == p@.len(),
            pl > 0,
            i <= n,
            out@ + replace_all(v@.skip(i as int), p@, rep@) == replace_all(v@, p@, rep@),
        decreases n - i,
    {
        let ghost rest = v@.skip(i as int);
        if pl <= n - i && occurs_at_exec(&v, &p, i) {
            assert(rest.take(pl as int) =~= v@.subrange(i as int, i + pl));
            assert(rest.skip(pl as int) =~= v@.skip(i + pl));
            append_str(&mut out, rep);
            i = i + pl;
            assert(out@ + replace_all(v@.skip(i as int), p@, rep@) =~= replace_all(v@, p@, rep@));
        } else {
            if pl <= n - i {
                assert(rest.take(pl as int) =~= v@.subrange(i as int, i + pl));
            }
            assert(rest.skip(1) =~= v@.skip(i + 1));
            push_char(&mut out, v[i]);
            i = i + 1;
            assert(out@ + replace_all(v@.skip(i as int), p@, rep@) =~= replace_all(v@, p@, rep@));
        }
    }
    assert(v@.skip(n as int) =~= Seq::<char>::empty());
    assert(out@ + Seq::<char>::empty() =~= out@);
    out
}

/// The document after server-side scripts ran: when they produced body markup,
/// it goes before each `</body>`, on a line of its own.
pub open spec fn ssr_merge_spec(html: Seq<char>, body: Option<Seq<char>>) -> Seq<char> {
    match body {
        Some(b) => if b.len() > 0 {
            replace_all(html, "</body>"@, b + "\n</body>"@)
        } else {
            html
        },
        None => html,
    }
}

/// Merges the body markup the page's scripts produced into the document.
pub fn ssr_merge(html: &str, body: Option<&str>) -> (r: String)
    ensures
        r@ == ssr_merge_spec(html@, opt_view(body)),
{
    match body {
        Some(b) => {
            if b.unicode_len() > 0 {
                let mut rep = String::from_str(b);
                append_str(&mut rep, "\n</body>");
                proof {
                    reveal_strlit("</body>");
                }
                replace_all_exec(html, "</body>", rep.as_str())
            } else {
                String::from_str(html)
            }
        },
        None => String::from_str(html),
    }
}

} // verus!
