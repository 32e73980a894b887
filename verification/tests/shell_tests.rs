use aris_render::pages::{plan_window, run_window, start_page, RenderConfig};
use aris_render::favicon::Favicon;
use aris_render::shell::{startup_navigation, Shell};

fn cfg() -> RenderConfig {
    RenderConfig { width: 800, height: 600 }
}

type TestShell = Shell<u8, u32>;

fn urls(s: &TestShell) -> Vec<Option<String>> {
    (0..s.tabs.len()).map(|i| s.tabs.get(i).url.clone()).collect()
}

#[test]
fn launch_starts_with_an_empty_address_bar() {
    let plan = plan_window("<p>x</p>", Some("https://example.com/"), true, &cfg());
    let s: TestShell = Shell::launch(&plan, 7);
    assert_eq!(s.tabs.len(), 1);
    assert_eq!(s.tabs.active_index(), 0);
    let t = s.tabs.active();
    assert_eq!(t.html, "<p>x</p>");
    assert_eq!(t.url.as_deref(), Some("https://example.com/"));
    assert_eq!(t.title, "New Tab");
    assert!(t.find.is_none() && t.favicon.is_none() && t.base_xrgb.is_empty());
    assert_eq!(t.extra, 7);
    assert_eq!(s.chrome.address, "");
    assert!(!s.chrome.address_focused);
    assert!(s.chrome.hover.is_none());
    assert!(s.chrome.caret_blink);
}

#[test]
fn startup_fetches_the_start_url() {
    let plan = plan_window("<p>loading</p>", Some("https://example.com/"), true, &cfg());
    let saved = vec!["https://old/".to_string()];
    assert_eq!(startup_navigation(&plan, &saved).as_deref(), Some("https://example.com/"));
}

#[test]
fn startup_restores_the_last_session_url() {
    let plan = run_window("<p>hi</p>", &cfg());
    let saved = vec!["https://a/".to_string(), "https://b/".to_string()];
    assert_eq!(startup_navigation(&plan, &saved).as_deref(), Some("https://b/"));
    assert_eq!(startup_navigation(&plan, &Vec::new()), None);
}

#[test]
fn startup_local_file_loads_nothing_more() {
    let plan = plan_window("<p>f</p>", Some("file:///tmp/a.html"), false, &cfg());
    let saved = vec!["https://a/".to_string()];
    assert_eq!(startup_navigation(&plan, &saved), None);
}

fn shell_with_urls() -> TestShell {
    let plan = plan_window("<p>a</p>", Some("https://a/"), false, &cfg());
    let mut s: TestShell = Shell::launch(&plan, 0);
    s.open_tab(1);
    s.tabs.active_mut().url = Some("https://b/".to_string());
    s.open_tab(2);
    s
}

#[test]
fn new_tab_is_a_start_page_and_clears_the_address_bar() {
    let plan = plan_window("<p>a</p>", Some("https://a/"), false, &cfg());
    let mut s: TestShell = Shell::launch(&plan, 0);
    s.chrome.set_url("typed");
    s.chrome.focus_address();
    s.open_tab(5);
    assert_eq!(s.tabs.len(), 2);
    assert_eq!(s.tabs.active_index(), 1);
    let t = s.tabs.active();
    assert_eq!(t.html, start_page());
    assert!(t.url.is_none());
    assert_eq!(t.title, "New Tab");
    assert_eq!(t.extra, 5);
    assert_eq!(s.tabs.get(0).url.as_deref(), Some("https://a/"));
    assert_eq!(s.chrome.address, "");
    assert!(!s.chrome.address_focused);
}

#[test]
fn closing_shows_the_new_active_tab() {
    let mut s = shell_with_urls();
    assert!(s.tabs.active_index() == 2);
    assert!(s.close_tab());
    assert_eq!(s.tabs.active_index(), 1);
    assert_eq!(s.chrome.address, "https://b/");
    assert!(!s.chrome.address_focused);
    assert!(s.select_tab(0));
    assert!(s.close_tab());
    assert_eq!(urls(&s), vec![Some("https://b/".to_string())]);
    assert_eq!(s.chrome.address, "https://b/");
    s.chrome.set_url("kept");
    assert!(!s.close_tab());
    assert_eq!(s.chrome.address, "kept");
    assert_eq!(s.tabs.len(), 1);
}

#[test]
fn switching_closes_the_find_bar_of_the_tab_left() {
    let mut s = shell_with_urls();
    s.tabs.active_mut().find = Some(aris_render::find::FindState::open());
    assert!(s.select_tab(1));
    s.tabs.active_mut().find = Some(aris_render::find::FindState::open());
    assert!(s.select_tab(0));
    s.tabs.active_mut().find = Some(aris_render::find::FindState::open());
    s.chrome.focus_address();
    s.switch_tab(true);
    assert_eq!(s.tabs.active_index(), 1);
    assert_eq!(s.chrome.address, "https://b/");
    assert!(!s.chrome.address_focused);
    assert!(s.tabs.get(0).find.is_none());
    assert!(s.tabs.get(1).find.is_some());
    assert!(s.tabs.get(2).find.is_some());
    s.switch_tab(false);
    assert_eq!(s.tabs.active_index(), 0);
    assert_eq!(s.chrome.address, "https://a/");
    assert!(s.tabs.get(1).find.is_none());
    assert!(s.tabs.get(2).find.is_some());
    s.switch_tab(false);
    assert_eq!(s.tabs.active_index(), 2);
    assert_eq!(s.chrome.address, "");
}

#[test]
fn favicon_goes_to_the_tab_it_was_fetched_for() {
    let mut s = shell_with_urls();
    let fav = Favicon { rgba: vec![1, 2, 3, 4], width: 1, height: 1 };
    assert!(s.attach_favicon(1, fav));
    assert_eq!(s.tabs.get(1).favicon.as_ref().map(|f| f.rgba.clone()), Some(vec![1, 2, 3, 4]));
    assert!(s.tabs.get(0).favicon.is_none());
    assert!(s.tabs.get(2).favicon.is_none());
    assert_eq!(s.tabs.active_index(), 2);
    let gone = Favicon { rgba: vec![], width: 0, height: 0 };
    assert!(!s.attach_favicon(3, gone));
}

#[test]
fn switching_with_one_tab_changes_nothing() {
    let plan = plan_window("<p>a</p>", Some("https://a/"), false, &cfg());
    let mut s: TestShell = Shell::launch(&plan, 0);
    s.tabs.active_mut().find = Some(aris_render::find::FindState::open());
    s.chrome.set_url("typed");
    s.chrome.focus_address();
    s.switch_tab(true);
    assert!(s.tabs.active().find.is_some());
    assert_eq!(s.chrome.address, "typed");
    assert!(s.chrome.address_focused);
}

#[test]
fn selecting_the_active_tab_changes_nothing() {
    let mut s = shell_with_urls();
    s.chrome.focus_address();
    assert!(!s.select_tab(2));
    assert!(!s.select_tab(9));
    assert!(s.chrome.address_focused);
    assert!(s.select_tab(1));
    assert_eq!(s.chrome.address, "https://b/");
}
