//! Keyboard shortcuts of the browser window: which command a key event means,
//! given what has focus.

use vstd::prelude::*;

use crate::chrome::{KeyInput, Modifiers};
use crate::text::chars_of;

verus! {

/// What the window does with a key event.
#[derive(Debug)]
pub enum KeyCommand {
    /// The address bar has focus: it edits with the key.
    ChromeEdit,
    CloseMenu,
    OpenFind,
    NewTab,
    CloseTab,
    /// Switch tabs; `true` moves forward.
    SwitchTab(bool),
    ZoomIn,
    ZoomOut,
    ZoomReset,
    CloseFind,
    /// Next match when `true`, previous when `false`.
    FindNext(bool),
    FindBackspace,
    FindAppend(String),
    /// The find bar has focus and ignores the key.
    FindIgnore,
    Quit,
    GoBack,
    GoForward,
    Reload,
    FocusAddress,
    /// Scroll a page; `true` scrolls up.
    ScrollPage(bool),
    ScrollTop,
    ScrollBottom,
    /// Hand the key to the page.
    ForwardToPage,
}

/// The key is the text `t` (exactly).
pub open spec fn is_text(key: &KeyInput, t: Seq<char>) -> bool {
    key matches KeyInput::Character(c) && c@ == t
}

/// The key is the one-character text `ch`, ignoring ASCII case (`eq_ignore_ascii_case`
/// with a lowercase ASCII letter).
pub open spec fn is_letter(key: &KeyInput, ch: char) -> bool {
    key matches KeyInput::Character(c) && (c@ == seq![ch] || c@ == seq![((ch as u32) - 32) as char])
}

/// The command for a key event.
pub open spec fn key_command_spec(
    key: &KeyInput,
    pressed: bool,
    mods: Modifiers,
    address_focused: bool,
    find_open: bool,
    menu_open: bool,
) -> KeyCommand {
    let ctrl = mods.control || mods.super_key;
    let alt = mods.alt;
    if address_focused {
        KeyCommand::ChromeEdit
    } else if !pressed {
        KeyCommand::ForwardToPage
    } else if *key is Escape && menu_open {
        KeyCommand::CloseMenu
    } else if ctrl && is_letter(key, 'f') {
        KeyCommand::OpenFind
    } else if ctrl && is_letter(key, 't') {
        KeyCommand::NewTab
    } else if ctrl && is_letter(key, 'w') {
        KeyCommand::CloseTab
    } else if ctrl && *key is Tab {
        KeyCommand::SwitchTab(!mods.shift)
    } else if ctrl && (is_text(key, seq!['=']) || is_text(key, seq!['+'])) {
        KeyCommand::ZoomIn
    } else if ctrl && is_text(key, seq!['-']) {
        KeyCommand::ZoomOut
    } else if ctrl && is_text(key, seq!['0']) {
        KeyCommand::ZoomReset
    } else if find_open {
        match *key {
            KeyInput::Escape => KeyCommand::CloseFind,
            KeyInput::Enter => KeyCommand::FindNext(!mods.shift),
            KeyInput::Backspace => KeyCommand::FindBackspace,
            KeyInput::Character(c) => if !ctrl && !alt && c@.len() > 0 {
                KeyCommand::FindAppend(c)
            } else {
                KeyCommand::FindIgnore
            },
            _ => KeyCommand::FindIgnore,
        }
    } else {
        match *key {
            KeyInput::Escape => KeyCommand::Quit,
            KeyInput::ArrowLeft => if alt {
                KeyCommand::GoBack
            } else {
                KeyCommand::ForwardToPage
            },
            KeyInput::ArrowRight => if alt {
                KeyCommand::GoForward
            } else {
                KeyCommand::ForwardToPage
            },
            KeyInput::F5 => KeyCommand::Reload,
            KeyInput::PageDown => KeyCommand::ScrollPage(false),
            KeyInput::PageUp => KeyCommand::ScrollPage(true),
            KeyInput::Home => KeyCommand::ScrollTop,
            KeyInput::End => KeyCommand::ScrollBottom,
            KeyInput::Character(c) => if ctrl && is_letter(key, 'r') {
                KeyCommand::Reload
            } else if ctrl && is_letter(key, 'l') {
                KeyCommand::FocusAddress
            } else if c@ == seq![' '] {
                KeyCommand::ScrollPage(mods.shift)
            } else {
                KeyCommand::ForwardToPage
            },
            _ => KeyCommand::ForwardToPage,
        }
    }
}

fn text_is(key: &KeyInput, t: &str) -> (b: bool)
    ensures
        b == is_text(key, t@),
{
    match key {
        KeyInput::Character(c) => {
            let a = chars_of(c.as_str());
            let b = chars_of(t);
            if a.len() != b.len() {
                return false;
            }
            let mut i: usize = 0;
            while i < a.len()
                invariant
                    i <= a@.len(),
                    a@.len() == b@.len(),
                    a@ == c@,
                    b@ == t@,
                    is_text(key, t@) == (a@ == b@),
                    forall|j: int| 0 <= j < i ==> a@[j] == b@[j],
                decreases a@.len() - i,
            {
                if a[i] != b[i] {
                    assert(a@[i as int] != b@[i as int]);
                    assert(a@ != b@);
                    return false;
                }
                i = i + 1;
            }
            assert(a@ =~= b@);
            true
        },
        _ => false,
    }
}

fn char_is(key: &KeyInput, ch: char) -> (b: bool)
    ensures
        b == (key matches KeyInput::Character(c) && c@ == seq![ch]),
{
    match key {
        KeyInput::Character(c) => {
            let a = chars_of(c.as_str());
            if a.len() == 1 && a[0] == ch {
                assert(a@ =~= seq![ch]);
                true
            } else {
                false
            }
        },
        _ => false,
    }
}

fn letter_is(key: &KeyInput, ch: char) -> (b: bool)
    requires
        'a' <= ch <= 'z',
    ensures
        b == is_letter(key, ch),
{
    let upper = ((ch as u32) - 32) as u8 as char;
    char_is(key, ch) || char_is(key, upper)
}

/// The command the window carries out for a key event.
pub fn key_command(
    key: &KeyInput,
    pressed: bool,
    mods: Modifiers,
    address_focused: bool,
    find_open: bool,
    menu_open: bool,
) -> (r: KeyCommand)
    ensures
        r == key_command_spec(key, pressed, mods, address_focused, find_open, menu_open),
{
    let ctrl = mods.control || mods.super_key;
    let alt = mods.alt;
    if address_focused {
        return KeyCommand::ChromeEdit;
    }
    if !pressed {
        return KeyCommand::ForwardToPage;
    }
    if menu_open {
        if let KeyInput::Escape = key {
            return KeyCommand::CloseMenu;
        }
    }
    if ctrl && letter_is(key, 'f') {
        return KeyCommand::OpenFind;
    }
    if ctrl && letter_is(key, 't') {
        return KeyCommand::NewTab;
    }
    if ctrl && letter_is(key, 'w') {
        return KeyCommand::CloseTab;
    }
    if ctrl {
        if let KeyInput::Tab = key {
            return KeyCommand::SwitchTab(!mods.shift);
        }
    }
    proof {
        reveal_strlit("=");
        reveal_strlit("+");
        reveal_strlit("-");
        reveal_strlit("0");
        assert("="@ =~= seq!['=']);
        assert("+"@ =~= seq!['+']);
        assert("-"@ =~= seq!['-']);
        assert("0"@ =~= seq!['0']);
    }
    if ctrl && (text_is(key, "=") || text_is(key, "+")) {
        return KeyCommand::ZoomIn;
    }
    if ctrl && text_is(key, "-") {
        return KeyCommand::ZoomOut;
    }
    if ctrl && text_is(key, "0") {
        return KeyCommand::ZoomReset;
    }
    if find_open {
        return match key {
            KeyInput::Escape => KeyCommand::CloseFind,
            KeyInput::Enter => KeyCommand::FindNext(!mods.shift),
            KeyInput::Backspace => KeyCommand::FindBackspace,
            KeyInput::Character(c) => {
                if !ctrl && !alt && !c.as_str().is_empty() {
                    KeyCommand::FindAppend(c.clone())
                } else {
                    KeyCommand::FindIgnore
                }
            },
            _ => KeyCommand::FindIgnore,
        };
    }
    match key {
        KeyInput::Escape => KeyCommand::Quit,
        KeyInput::ArrowLeft => if alt {
            KeyCommand::GoBack
        } else {
            KeyCommand::ForwardToPage
        },
        KeyInput::ArrowRight => if alt {
            KeyCommand::GoForward
        } else {
            KeyCommand::ForwardToPage
        },
        KeyInput::F5 => KeyCommand::Reload,
        KeyInput::PageDown => KeyCommand::ScrollPage(false),
        KeyInput::PageUp => KeyCommand::ScrollPage(true),
        KeyInput::Home => KeyCommand::ScrollTop,
        KeyInput::End => KeyCommand::ScrollBottom,
        KeyInput::Character(_) => {
            if ctrl && letter_is(key, 'r') {
                KeyCommand::Reload
            } else if ctrl && letter_is(key, 'l') {
                KeyCommand::FocusAddress
            } else if char_is(key, ' ') {
                KeyCommand::ScrollPage(mods.shift)
            } else {
                KeyCommand::ForwardToPage
            }
        },
        _ => KeyCommand::ForwardToPage,
    }
}

/// History moves need Alt: a key gives `GoBack` or `GoForward` only while Alt is
/// held, and only as Left or Right arrow (back and forward, in that order).
pub proof fn lemma_history_needs_alt(
    key: &KeyInput,
    pressed: bool,
    mods: Modifiers,
    address_focused: bool,
    find_open: bool,
    menu_open: bool,
)
    ensures
        key_command_spec(key, pressed, mods, address_focused, find_open, menu_open) is GoBack
            ==> mods.alt && *key is ArrowLeft,
        key_command_spec(key, pressed, mods, address_focused, find_open, menu_open) is GoForward
            ==> mods.alt && *key is ArrowRight,
{
}

/// Without Alt, a pressed arrow key on the page (address bar unfocused, find bar
/// closed) goes to the page; with Alt it moves in history.
pub proof fn lemma_arrows_on_page(key: &KeyInput, mods: Modifiers, menu_open: bool)
    requires
        *key is ArrowLeft || *key is ArrowRight,
    ensures
        !mods.alt ==> key_command_spec(key, true, mods, false, false, menu_open) is ForwardToPage,
        mods.alt && *key is ArrowLeft ==> key_command_spec(key, true, mods, false, false, menu_open) is GoBack,
        mods.alt && *key is ArrowRight ==> key_command_spec(key, true, mods, false, false, menu_open) is GoForward,
{
}
} // verus!
