use aris_render::pages::{
    caret_blink_due, loading_page, page_source, plan_window, is_os_dark_mode,
    replace_all_exec, run_window, run_window_url, ssr_merge, start_page, PageSource, RenderConfig,
};

#[test]
fn start_page_document() {
    let p = start_page();
    assert!(p.starts_with("<!DOCTYPE html><html lang=\"en\"><head><meta charset=\"UTF-8\"><title>aris \u{2014} new tab</title>"));
    assert_eq!(p.matches(r#"<a class="card""#).count(), 4);
    assert!(!p.contains("display:grid"));
    assert!(!p.contains("transition"));
    assert!(p.contains("display:flex"));
    assert!(p.contains("background:#1e1e2e"));
    assert!(p.contains("<h1>aris</h1>"));
    assert!(p.contains("href=\"https://example.com\""));
    assert!(p.contains("href=\"about:about\""));
    assert!(p.contains("<kbd>Ctrl+L</kbd>"));
    assert!(p.ends_with("</div></body></html>"));
}

#[test]
fn page_sources_by_scheme() {
    assert_eq!(page_source("file"), PageSource::File);
    assert_eq!(page_source("about"), PageSource::Builtin);
    assert_eq!(page_source("data"), PageSource::Builtin);
    assert_eq!(page_source("https"), PageSource::Remote);
    assert_eq!(page_source("http"), PageSource::Remote);
    assert_eq!(page_source("File"), PageSource::Remote);
    assert_eq!(page_source(""), PageSource::Remote);
}

#[test]
fn window_from_html() {
    let cfg = RenderConfig { width: 1280, height: 800 };
    let w = run_window("<p>hi</p>", &cfg);
    assert_eq!(w.initial_html, "<p>hi</p>");
    assert!(w.initial_url.is_none());
    assert!(!w.navigate_initial);
    assert!(w.restore_session);
    assert_eq!((w.window_width, w.window_height), (1280, 800));
    assert_eq!(w.tab_title, "New Tab");
}

#[test]
fn window_from_url() {
    let cfg = RenderConfig { width: 800, height: 600 };
    let w = plan_window("<p>loading</p>", Some("https://example.com/"), true, &cfg);
    assert_eq!(w.initial_url.as_deref(), Some("https://example.com/"));
    assert!(w.navigate_initial);
    assert!(!w.restore_session);
    let local = plan_window("<p>file</p>", Some("file:///tmp/a.html"), false, &cfg);
    assert!(!local.navigate_initial);
    assert!(!local.restore_session);
    assert_eq!(local.initial_html, "<p>file</p>");
}

#[test]
fn dark_mode_from_registry_output() {
    assert!(is_os_dark_mode("    AppsUseLightTheme    REG_DWORD    0x0\r\n"));
    assert!(!is_os_dark_mode("    AppsUseLightTheme    REG_DWORD    0x1\r\n"));
    assert!(!is_os_dark_mode(""));
    assert!(!is_os_dark_mode("ERROR: The system was unable to find the specified registry key or value.\r\n"));
}

#[test]
fn caret_blink_period() {
    assert!(!caret_blink_due(0));
    assert!(!caret_blink_due(529));
    assert!(caret_blink_due(530));
    assert!(caret_blink_due(10_000));
}

#[test]
fn loading_page_shows_the_url() {
    let p = loading_page("https://a/?x=1&amp;y=2");
    assert_eq!(
        p,
        "<!DOCTYPE html><html><head><title>Loading\u{2026}</title><style>body{font-family:system-ui,sans-serif;background:#1a1b26;color:#a9b1d6;padding:48px;text-align:center;}h1{color:#7aa2f7;}code{color:#7dcfff;}</style></head><body><h1>Loading\u{2026}</h1><p><code>https://a/?x=1&amp;y=2</code></p></body></html>"
    );
}

#[test]
fn replace_matches_str_replace() {
    for (s, p, r) in [
        ("aaaa", "aa", "b"),
        ("abcabc", "bc", "X"),
        ("none", "zz", "q"),
        ("", "a", "b"),
        ("\u{e9}t\u{e9}", "\u{e9}", "e"),
        ("aaa", "aa", ""),
    ] {
        assert_eq!(replace_all_exec(s, p, r), s.replace(p, r));
    }
}

#[test]
fn ssr_body_goes_before_closing_body() {
    assert_eq!(
        ssr_merge("<html><body><p>x</p></body></html>", Some("<div>js</div>")),
        "<html><body><p>x</p><div>js</div>\n</body></html>"
    );
    assert_eq!(ssr_merge("<body></body>", Some("")), "<body></body>");
    assert_eq!(ssr_merge("<body></body>", None), "<body></body>");
    assert_eq!(ssr_merge("<p>no body</p>", Some("b")), "<p>no body</p>");
}

#[test]
fn windows_for_urls() {
    let cfg = RenderConfig { width: 640, height: 480 };
    let w = run_window_url("https://example.com/", "https", "unused", "https://example.com/", &cfg);
    assert_eq!(w.initial_html, loading_page("https://example.com/"));
    assert_eq!(w.initial_url.as_deref(), Some("https://example.com/"));
    assert!(w.navigate_initial);
    assert!(!w.restore_session);
    let f = run_window_url("file:///tmp/a.html", "file", "<p>file</p>", "x", &cfg);
    assert_eq!(f.initial_html, "<p>file</p>");
    assert!(!f.navigate_initial);
    let a = run_window_url("about:about", "about", "<p>about</p>", "x", &cfg);
    assert_eq!(a.initial_html, "<p>about</p>");
    assert_eq!(a.initial_url.as_deref(), Some("about:about"));
    assert!(!a.navigate_initial && !a.restore_session);
    assert_eq!((a.window_width, a.window_height), (640, 480));
    assert_eq!(a.tab_title, "New Tab");
}
