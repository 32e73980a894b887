use aris_render::text::is_blank;
use aris_render::chrome::{
    context_menu_items, cursor_for, menu_item_action, status_text, window_title, ChromeAction,
    ChromeRegion, ChromeState, ContextMenuAction, CursorKind, KeyInput, Modifiers,
};

fn no_mods() -> Modifiers {
    Modifiers { control: false, alt: false, shift: false, super_key: false }
}

fn ch(s: &str) -> KeyInput {
    KeyInput::Character(s.to_string())
}

#[test]
fn new_chrome_state() {
    let c = ChromeState::new();
    assert_eq!(c.address, "");
    assert!(!c.address_focused);
    assert!(c.hover.is_none());
    assert!(c.caret_blink);
    assert!(!c.caret_visible());
}

#[test]
fn caret_blinks_only_when_focused() {
    let mut c = ChromeState::new();
    c.focus_address();
    assert!(c.caret_visible());
    c.toggle_caret();
    assert!(!c.caret_visible());
    c.toggle_caret();
    assert!(c.caret_visible());
}

#[test]
fn set_url_keeps_focus() {
    let mut c = ChromeState::new();
    c.set_url("https://example.com/");
    assert_eq!(c.address, "https://example.com/");
    assert!(!c.address_focused);
}

#[test]
fn clicks_on_regions() {
    let mut c = ChromeState::new();
    assert!(matches!(c.click_region(ChromeRegion::Back), ChromeAction::GoBack));
    assert!(matches!(c.click_region(ChromeRegion::Forward), ChromeAction::GoForward));
    assert!(matches!(c.click_region(ChromeRegion::Reload), ChromeAction::Reload));
    assert!(matches!(c.click_region(ChromeRegion::Close), ChromeAction::CloseWindow));
    assert!(!c.address_focused);
    c.caret_blink = false;
    assert!(matches!(c.click_region(ChromeRegion::Address), ChromeAction::RedrawOnly));
    assert!(c.address_focused);
    assert!(c.caret_blink);
}

#[test]
fn typing_and_enter_navigates() {
    let mut c = ChromeState::new();
    c.focus_address();
    for s in ["e", "x", ".", "c", "o", "m"] {
        assert!(matches!(c.handle_key(&ch(s), true, no_mods()), Some(ChromeAction::RedrawOnly)));
    }
    assert_eq!(c.address, "ex.com");
    match c.handle_key(&KeyInput::Enter, true, no_mods()) {
        Some(ChromeAction::Navigate(t)) => assert_eq!(t, "ex.com"),
        other => panic!("unexpected {:?}", other),
    }
    assert!(!c.address_focused);
    assert_eq!(c.address, "ex.com");
}

#[test]
fn backspace_removes_last_character() {
    let mut c = ChromeState::new();
    c.set_url("ab\u{e9}");
    c.focus_address();
    c.caret_blink = false;
    assert!(matches!(c.handle_key(&KeyInput::Backspace, true, no_mods()), Some(ChromeAction::RedrawOnly)));
    assert_eq!(c.address, "ab");
    assert!(c.caret_blink);
    let mut e = ChromeState::new();
    e.focus_address();
    assert!(matches!(e.handle_key(&KeyInput::Backspace, true, no_mods()), Some(ChromeAction::RedrawOnly)));
    assert_eq!(e.address, "");
}

#[test]
fn escape_unfocuses() {
    let mut c = ChromeState::new();
    c.focus_address();
    assert!(matches!(c.handle_key(&KeyInput::Escape, true, no_mods()), Some(ChromeAction::RedrawOnly)));
    assert!(!c.address_focused);
}

#[test]
fn ignored_keys() {
    let mut c = ChromeState::new();
    c.focus_address();
    c.set_url("a");
    assert!(c.handle_key(&ch("b"), false, no_mods()).is_none());
    let ctrl = Modifiers { control: true, ..no_mods() };
    assert!(c.handle_key(&ch("b"), true, ctrl).is_none());
    let sup = Modifiers { super_key: true, ..no_mods() };
    assert!(c.handle_key(&ch("b"), true, sup).is_none());
    assert!(c.handle_key(&ch("\u{7}"), true, no_mods()).is_none());
    assert!(c.handle_key(&ch(""), true, no_mods()).is_none());
    assert!(c.handle_key(&KeyInput::Tab, true, no_mods()).is_none());
    assert_eq!(c.address, "a");
    let alt = Modifiers { alt: true, ..no_mods() };
    assert!(matches!(c.handle_key(&ch("z"), true, alt), Some(ChromeAction::RedrawOnly)));
    assert_eq!(c.address, "az");
}

fn labels(items: &[(String, ContextMenuAction, bool)]) -> Vec<&str> {
    items.iter().map(|i| i.0.as_str()).collect()
}

#[test]
fn context_menu_full() {
    let items = context_menu_items(true, false, true, true);
    assert_eq!(
        labels(&items),
        vec!["Back", "Forward", "Reload", "Copy link address", "Copy page URL", "Edit address"]
    );
    assert_eq!(items[0].1, ContextMenuAction::GoBack);
    assert!(items[0].2);
    assert_eq!(items[1].1, ContextMenuAction::GoForward);
    assert!(!items[1].2);
    assert_eq!(items[3].1, ContextMenuAction::CopyLink);
    assert_eq!(items[4].1, ContextMenuAction::CopyUrl);
    assert_eq!(items[5].1, ContextMenuAction::FocusAddress);
}

#[test]
fn context_menu_minimal() {
    let items = context_menu_items(false, false, false, false);
    assert_eq!(labels(&items), vec!["Back", "Forward", "Reload", "Edit address"]);
}

#[test]
fn menu_rows_map_to_enabled_actions() {
    let items = context_menu_items(false, true, false, true);
    assert_eq!(menu_item_action(&items, 0), None);
    assert_eq!(menu_item_action(&items, 1), Some(ContextMenuAction::GoForward));
    assert_eq!(menu_item_action(&items, 2), Some(ContextMenuAction::Reload));
    assert_eq!(menu_item_action(&items, 3), Some(ContextMenuAction::CopyUrl));
    assert_eq!(menu_item_action(&items, 4), Some(ContextMenuAction::FocusAddress));
    assert_eq!(menu_item_action(&items, 5), None);
}

#[test]
fn address_bar_text() {
    let mut c = ChromeState::new();
    c.set_url("typed");
    assert_eq!(c.address_display(Some("https://l/"), Some("https://p/"), false), "https://l/");
    assert_eq!(c.address_display(None, Some("https://p/"), false), "https://p/");
    assert_eq!(c.address_display(None, None, false), "");
    assert_eq!(c.address_display(None, Some("https://p/"), true), "\u{27f3} https://p/");
    c.focus_address();
    assert_eq!(c.address_display(Some("https://l/"), Some("https://p/"), true), "typed");
}

#[test]
fn status_bar_text() {
    assert_eq!(status_text(true, Some("https://l/")).as_deref(), Some("Loading\u{2026}"));
    assert_eq!(status_text(false, Some("https://l/")).as_deref(), Some("https://l/"));
    assert_eq!(status_text(false, None), None);
    assert_eq!(status_text(false, Some("")), None);
    assert_eq!(status_text(true, Some("")).as_deref(), Some("Loading\u{2026}"));
}

#[test]
fn window_titles() {
    assert_eq!(window_title("Example"), "Example \u{2014} aris");
    assert_eq!(window_title("  "), "aris");
    assert_eq!(window_title(""), "aris");
    assert_eq!(window_title(" x "), " x  \u{2014} aris");
}

#[test]
fn typing_then_backspace_restores_address() {
    let mut c = ChromeState::new();
    c.set_url("https://a/");
    c.focus_address();
    assert!(c.handle_key(&ch("\u{e9}"), true, no_mods()).is_some());
    assert_eq!(c.address, "https://a/\u{e9}");
    assert!(c.handle_key(&KeyInput::Backspace, true, no_mods()).is_some());
    assert_eq!(c.address, "https://a/");
}

#[test]
fn cursor_over_chrome() {
    assert_eq!(cursor_for(true, Some(ChromeRegion::Address), None), CursorKind::Text);
    assert_eq!(cursor_for(true, Some(ChromeRegion::Back), Some("text")), CursorKind::Pointer);
    assert_eq!(cursor_for(true, Some(ChromeRegion::Close), None), CursorKind::Pointer);
    assert_eq!(cursor_for(true, None, Some("text")), CursorKind::Default);
}

#[test]
fn cursor_over_page_follows_page_ignoring_case() {
    assert_eq!(cursor_for(false, None, Some("Text")), CursorKind::Text);
    assert_eq!(cursor_for(false, None, Some("Pointer")), CursorKind::Pointer);
    assert_eq!(cursor_for(false, None, Some("Move")), CursorKind::AllScroll);
    assert_eq!(cursor_for(false, None, Some("NotAllowed")), CursorKind::NotAllowed);
    assert_eq!(cursor_for(false, None, Some("Grabbing")), CursorKind::Grabbing);
    assert_eq!(cursor_for(false, None, Some("EwResize")), CursorKind::Default);
    assert_eq!(cursor_for(false, Some(ChromeRegion::Back), None), CursorKind::Default);
}

#[test]
fn blank_strings() {
    assert!(is_blank(""));
    assert!(is_blank(" \t\n\u{3000}"));
    assert!(!is_blank(" a "));
}
