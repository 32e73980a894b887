use aris_render::chrome::{KeyInput, Modifiers};
use aris_render::input::{key_command, KeyCommand};

fn m(control: bool, alt: bool, shift: bool) -> Modifiers {
    Modifiers { control, alt, shift, super_key: false }
}

fn none() -> Modifiers {
    m(false, false, false)
}

fn ch(s: &str) -> KeyInput {
    KeyInput::Character(s.to_string())
}

fn cmd(key: KeyInput, mods: Modifiers) -> KeyCommand {
    key_command(&key, true, mods, false, false, false)
}

#[test]
fn focused_address_bar_takes_every_key() {
    assert!(matches!(key_command(&ch("a"), true, none(), true, true, true), KeyCommand::ChromeEdit));
    assert!(matches!(key_command(&KeyInput::Escape, false, none(), true, false, false), KeyCommand::ChromeEdit));
}

#[test]
fn releases_go_to_the_page() {
    assert!(matches!(key_command(&KeyInput::Escape, false, none(), false, false, true), KeyCommand::ForwardToPage));
}

#[test]
fn escape_closes_an_open_menu_first() {
    assert!(matches!(key_command(&KeyInput::Escape, true, none(), false, true, true), KeyCommand::CloseMenu));
    assert!(matches!(key_command(&KeyInput::Escape, true, none(), false, true, false), KeyCommand::CloseFind));
    assert!(matches!(key_command(&KeyInput::Escape, true, none(), false, false, false), KeyCommand::Quit));
}

#[test]
fn control_shortcuts() {
    assert!(matches!(cmd(ch("f"), m(true, false, false)), KeyCommand::OpenFind));
    assert!(matches!(cmd(ch("F"), m(true, false, true)), KeyCommand::OpenFind));
    assert!(matches!(cmd(ch("t"), m(true, false, false)), KeyCommand::NewTab));
    assert!(matches!(cmd(ch("w"), m(true, false, false)), KeyCommand::CloseTab));
    assert!(matches!(cmd(KeyInput::Tab, m(true, false, false)), KeyCommand::SwitchTab(true)));
    assert!(matches!(cmd(KeyInput::Tab, m(true, false, true)), KeyCommand::SwitchTab(false)));
    assert!(matches!(cmd(ch("="), m(true, false, false)), KeyCommand::ZoomIn));
    assert!(matches!(cmd(ch("+"), m(true, false, false)), KeyCommand::ZoomIn));
    assert!(matches!(cmd(ch("-"), m(true, false, false)), KeyCommand::ZoomOut));
    assert!(matches!(cmd(ch("0"), m(true, false, false)), KeyCommand::ZoomReset));
    assert!(matches!(cmd(ch("r"), m(true, false, false)), KeyCommand::Reload));
    assert!(matches!(cmd(ch("l"), m(true, false, false)), KeyCommand::FocusAddress));
    let cmd_key = Modifiers { control: false, alt: false, shift: false, super_key: true };
    assert!(matches!(cmd(ch("t"), cmd_key), KeyCommand::NewTab));
}

#[test]
fn find_bar_keys() {
    let find = |k: KeyInput, mods: Modifiers| key_command(&k, true, mods, false, true, false);
    assert!(matches!(find(KeyInput::Enter, none()), KeyCommand::FindNext(true)));
    assert!(matches!(find(KeyInput::Enter, m(false, false, true)), KeyCommand::FindNext(false)));
    assert!(matches!(find(KeyInput::Backspace, none()), KeyCommand::FindBackspace));
    match find(ch("q"), none()) {
        KeyCommand::FindAppend(s) => assert_eq!(s, "q"),
        other => panic!("unexpected {:?}", other),
    }
    assert!(matches!(find(ch("q"), m(false, true, false)), KeyCommand::FindIgnore));
    assert!(matches!(find(ch(""), none()), KeyCommand::FindIgnore));
    assert!(matches!(find(KeyInput::F5, none()), KeyCommand::FindIgnore));
    assert!(matches!(find(ch("t"), m(true, false, false)), KeyCommand::NewTab));
}

#[test]
fn navigation_and_scrolling_keys() {
    assert!(matches!(cmd(KeyInput::ArrowLeft, m(false, true, false)), KeyCommand::GoBack));
    assert!(matches!(cmd(KeyInput::ArrowRight, m(false, true, false)), KeyCommand::GoForward));
    assert!(matches!(cmd(KeyInput::ArrowLeft, none()), KeyCommand::ForwardToPage));
    assert!(matches!(cmd(KeyInput::F5, none()), KeyCommand::Reload));
    assert!(matches!(cmd(KeyInput::PageDown, none()), KeyCommand::ScrollPage(false)));
    assert!(matches!(cmd(KeyInput::PageUp, none()), KeyCommand::ScrollPage(true)));
    assert!(matches!(cmd(KeyInput::Home, none()), KeyCommand::ScrollTop));
    assert!(matches!(cmd(KeyInput::End, none()), KeyCommand::ScrollBottom));
    assert!(matches!(cmd(ch(" "), none()), KeyCommand::ScrollPage(false)));
    assert!(matches!(cmd(ch(" "), m(false, false, true)), KeyCommand::ScrollPage(true)));
    assert!(matches!(cmd(ch("a"), none()), KeyCommand::ForwardToPage));
    assert!(matches!(cmd(KeyInput::Other, none()), KeyCommand::ForwardToPage));
}
