//! The browser chrome: toolbar regions, the address bar's editing state, and the
//! right-click context menu.

use vstd::prelude::*;
use vstd::string::StringExecFns;

use crate::pages::opt_view;
use crate::text::{
    append_str, chars_of, lowercase, push_char, str_eq, string_from_chars, to_lowercase_str, trim,
    trim_bounds,
};

verus! {

/// A clickable part of the chrome bar.
#[derive(Clone, Copy, Debug, PartialEq, Eq, Structural)]
pub enum ChromeRegion {
    Back,
    Forward,
    Reload,
    Address,
    Close,
}

/// What a chrome interaction asks the browser to do.
#[derive(Debug)]
pub enum ChromeAction {
    GoBack,
    GoForward,
    Reload,
    /// Navigate to the typed input.
    Navigate(String),
    CloseWindow,
    RedrawOnly,
}

/// What a context-menu item does when clicked.
#[derive(Clone, Copy, Debug, PartialEq, Eq, Structural)]
pub enum ContextMenuAction {
    GoBack,
    GoForward,
    Reload,
    CopyUrl,
    CopyLink,
    FocusAddress,
    Close,
}

/// A key as the chrome and the shortcut handling see it.
#[derive(Debug)]
pub enum KeyInput {
    Enter,
    Escape,
    Backspace,
    Tab,
    ArrowLeft,
    ArrowRight,
    PageUp,
    PageDown,
    Home,
    End,
    F5,
    /// A key that produces text.
    Character(String),
    /// Any other key.
    Other,
}

/// Modifier keys held during a key press.
#[derive(Clone, Copy, Debug)]
pub struct Modifiers {
    pub control: bool,
    pub alt: bool,
    pub shift: bool,
    pub super_key: bool,
}

/// `char::is_control`: general category Cc.
pub open spec fn is_control(c: char) -> bool {
    let u = c as u32;
    u < 0x20 || (0x7F <= u && u <= 0x9F)
}

fn is_control_exec(c: char) -> (b: bool)
    ensures
        b == is_control(c),
{
    let u = c as u32;
    u < 0x20 || (0x7F <= u && u <= 0x9F)
}

/// Removes the last character of `s`, if any.
fn string_pop(s: &mut String)
    ensures
        final(s)@ == if old(s)@.len() > 0 {
            old(s)@.drop_last()
        } else {
            old(s)@
        },
{
    let v = chars_of(s.as_str());
    if v.len() > 0 {
        let t = string_from_chars(&v, 0, v.len() - 1);
        assert(t@ =~= old(s)@.drop_last());
        *s = t;
    }
}

/// Address bar state: typed text, focus, hovered button, caret blink phase.
pub struct ChromeState {
    pub address: String,
    pub address_focused: bool,
    pub hover: Option<ChromeRegion>,
    pub caret_blink: bool,
}

/// Text that the address bar accepts from a key: non-empty, no control characters.
pub open spec fn accepts_text(t: Seq<char>) -> bool {
    t.len() > 0 && forall|i: int| 0 <= i < t.len() ==> !is_control(#[trigger] t[i])
}

fn accepts_text_exec(t: &str) -> (b: bool)
    ensures
        b == accepts_text(t@),
{
    let v = chars_of(t);
    if v.len() == 0 {
        return false;
    }
    let mut i: usize = 0;
    while i < v.len()
        invariant
            i <= v@.len(),
            v@ == t@,
            forall|j: int| 0 <= j < i ==> !is_control(#[trigger] v@[j]),
        decreases v@.len() - i,
    {
        if is_control_exec(v[i]) {
            return false;
        }
        i = i + 1;
    }
    true
}

/// Fields unchanged apart from `hover`, which no key touches.
pub open spec fn same_edit_state(a: ChromeState, b: ChromeState) -> bool {
    a.address@ == b.address@ && a.address_focused == b.address_focused && a.caret_blink
        == b.caret_blink
}

/// What a key does to the address bar and what it reports.
pub open spec fn edit_outcome(
    pre: ChromeState,
    post: ChromeState,
    key: &KeyInput,
    pressed: bool,
    mods: Modifiers,
    r: Option<ChromeAction>,
) -> bool {
    if !pressed {
        r is None && same_edit_state(pre, post)
    } else {
        match *key {
            KeyInput::Enter => {
                &&& r matches Some(ChromeAction::Navigate(t)) && t@ == pre.address@
                &&& !post.address_focused
                &&& post.address@ == pre.address@
                &&& post.caret_blink == pre.caret_blink
            },
            KeyInput::Escape => {
                &&& r matches Some(ChromeAction::RedrawOnly)
                &&& !post.address_focused
                &&& post.address@ == pre.address@
                &&& post.caret_blink == pre.caret_blink
            },
            KeyInput::Backspace => {
                &&& r matches Some(ChromeAction::RedrawOnly)
                &&& post.address@ == (if pre.address@.len() > 0 {
                    pre.address@.drop_last()
                } else {
                    pre.address@
                })
                &&& post.caret_blink
                &&& post.address_focused == pre.address_focused
            },
            KeyInput::Character(c) => {
                if !(mods.control || mods.super_key) && accepts_text(c@) {
                    &&& r matches Some(ChromeAction::RedrawOnly)
                    &&& post.address@ == pre.address@ + c@
                    &&& post.caret_blink
                    &&& post.address_focused == pre.address_focused
                } else {
                    r is None && same_edit_state(pre, post)
                }
            },
            _ => r is None && same_edit_state(pre, post),
        }
    }
}

impl ChromeState {
    /// An empty, unfocused address bar.
    pub fn new() -> (s: Self)
        ensures
            s.address@ == Seq::<char>::empty(),
            !s.address_focused,
            s.hover is None,
            s.caret_blink,
    {
        Self { address: String::new(), address_focused: false, hover: None, caret_blink: true }
    }

    /// Shows `url` in the address bar.
    pub fn set_url(&mut self, url: &str)
        ensures
            final(self).address@ == url@,
            final(self).address_focused == old(self).address_focused,
            final(self).hover == old(self).hover,
            final(self).caret_blink == old(self).caret_blink,
    {
        self.address = String::from_str(url);
    }

    /// Flips the caret blink phase.
    pub fn toggle_caret(&mut self)
        ensures
            final(self).caret_blink == !old(self).caret_blink,
            final(self).address@ == old(self).address@,
            final(self).address_focused == old(self).address_focused,
            final(self).hover == old(self).hover,
    {
        self.caret_blink = !self.caret_blink;
    }

    /// The caret shows while the address bar is focused and in the visible phase.
    pub fn caret_visible(&self) -> (b: bool)
        ensures
            b == (self.address_focused && self.caret_blink),
    {
        self.address_focused && self.caret_blink
    }

    /// Focuses the address bar with the caret visible.
    pub fn focus_address(&mut self)
        ensures
            final(self).address_focused,
            final(self).caret_blink,
            final(self).address@ == old(self).address@,
            final(self).hover == old(self).hover,
    {
        self.address_focused = true;
        self.caret_blink = true;
    }

    /// The action for a click on `region`; a click on the address bar focuses it.
    pub fn click_region(&mut self, region: ChromeRegion) -> (a: ChromeAction)
        ensures
            match region {
                ChromeRegion::Back => a is GoBack,
                ChromeRegion::Forward => a is GoForward,
                ChromeRegion::Reload => a is Reload,
                ChromeRegion::Close => a is CloseWindow,
                ChromeRegion::Address => a is RedrawOnly,
            },
            region == ChromeRegion::Address ==> final(self).address_focused
                && final(self).caret_blink,
            region != ChromeRegion::Address ==> final(self).address_focused == old(
                self,
            ).address_focused && final(self).caret_blink == old(self).caret_blink,
            final(self).address@ == old(self).address@,
            final(self).hover == old(self).hover,
    {
        match region {
            ChromeRegion::Back => ChromeAction::GoBack,
            ChromeRegion::Forward => ChromeAction::GoForward,
            ChromeRegion::Reload => ChromeAction::Reload,
            ChromeRegion::Close => ChromeAction::CloseWindow,
            ChromeRegion::Address => {
                self.address_focused = true;
                self.caret_blink = true;
                ChromeAction::RedrawOnly
            },
        }
    }

    /// Address-bar editing for a key event while the bar is focused.
    pub fn handle_key(&mut self, key: &KeyInput, pressed: bool, mods: Modifiers) -> (r: Option<
        ChromeAction,
    >)
        ensures
            final(self).hover == old(self).hover,
            edit_outcome(*old(self), *final(self), key, pressed, mods, r),
    {
        if !pressed {
            return None;
        }
        let ctrl = mods.control || mods.super_key;
        match key {
            KeyInput::Enter => {
                self.address_focused = false;
                Some(ChromeAction::Navigate(self.address.clone()))
            },
            KeyInput::Escape => {
                self.address_focused = false;
                Some(ChromeAction::RedrawOnly)
            },
            KeyInput::Backspace => {
                string_pop(&mut self.address);
                self.caret_blink = true;
                Some(ChromeAction::RedrawOnly)
            },
            KeyInput::Character(c) => {
                if !ctrl && accepts_text_exec(c.as_str()) {
                    self.address.append(c.as_str());
                    self.caret_blink = true;
                    Some(ChromeAction::RedrawOnly)
                } else {
                    None
                }
            },
            _ => None,
        }
    }
}

// ── Context menu ────────────────────────────────────────────

/// A menu entry as a value: label, action, enabled.
pub open spec fn menu_entry(label: Seq<char>, action: ContextMenuAction, enabled: bool) -> (
    Seq<char>,
    ContextMenuAction,
    bool,
) {
    (label, action, enabled)
}

/// The context menu's entries for the current page.
pub open spec fn context_menu_spec(can_back: bool, can_fwd: bool, has_link: bool, has_url: bool) -> Seq<
    (Seq<char>, ContextMenuAction, bool),
> {
    seq![
        menu_entry("Back"@, ContextMenuAction::GoBack, can_back),
        menu_entry("Forward"@, ContextMenuAction::GoForward, can_fwd),
        menu_entry("Reload"@, ContextMenuAction::Reload, true),
    ] + (if has_link {
        seq![menu_entry("Copy link address"@, ContextMenuAction::CopyLink, true)]
    } else {
        seq![]
    }) + (if has_url {
        seq![menu_entry("Copy page URL"@, ContextMenuAction::CopyUrl, true)]
    } else {
        seq![]
    }) + seq![menu_entry("Edit address"@, ContextMenuAction::FocusAddress, true)]
}

/// The view of a list of menu items.
pub open spec fn menu_view(items: Seq<(String, ContextMenuAction, bool)>) -> Seq<
    (Seq<char>, ContextMenuAction, bool),
> {
    items.map_values(|it: (String, ContextMenuAction, bool)| (it.0@, it.1, it.2))
}

/// The items of the right-click menu: history moves, reload, the copy entries that
/// apply, and address editing.
pub fn context_menu_items(can_back: bool, can_fwd: bool, has_link: bool, has_url: bool) -> (items:
    Vec<(String, ContextMenuAction, bool)>)
    ensures
        menu_view(items@) == context_menu_spec(can_back, can_fwd, has_link, has_url),
{
    let mut items: Vec<(String, ContextMenuAction, bool)> = Vec::new();
    items.push((String::from_str("Back"), ContextMenuAction::GoBack, can_back));
    items.push((String::from_str("Forward"), ContextMenuAction::GoForward, can_fwd));
    items.push((String::from_str("Reload"), ContextMenuAction::Reload, true));
    if has_link {
        items.push((String::from_str("Copy link address"), ContextMenuAction::CopyLink, true));
    }
    if has_url {
        items.push((String::from_str("Copy page URL"), ContextMenuAction::CopyUrl, true));
    }
    items.push((String::from_str("Edit address"), ContextMenuAction::FocusAddress, true));
    assert(menu_view(items@) =~= context_menu_spec(can_back, can_fwd, has_link, has_url));
    items
}

/// The action of the item in row `row`, if that row holds an enabled item.
pub fn menu_item_action(items: &Vec<(String, ContextMenuAction, bool)>, row: usize) -> (r: Option<
    ContextMenuAction,
>)
    ensures
        r matches Some(a) ==> row < items@.len() && items@[row as int].2 && a == items@[row as int].1,
        r is None ==> row >= items@.len() || !items@[row as int].2,
{
    if row < items.len() && items[row].2 {
        Some(items[row].1)
    } else {
        None
    }
}

// ── What the chrome shows ───────────────────────────────────

/// Text of the address bar: what is typed while it is focused, otherwise the
/// hovered link, otherwise the page URL; while a navigation is in flight (and the
/// bar is not focused) it is prefixed with a loading glyph.
pub open spec fn address_display_spec(
    focused: bool,
    address: Seq<char>,
    hovered: Option<Seq<char>>,
    current: Option<Seq<char>>,
    navigating: bool,
) -> Seq<char> {
    let base = if focused {
        address
    } else {
        match hovered {
            Some(l) => l,
            None => match current {
                Some(u) => u,
                None => Seq::<char>::empty(),
            },
        }
    };
    if navigating && !focused {
        "\u{27f3} "@ + base
    } else {
        base
    }
}

impl ChromeState {
    /// The text the address bar shows, given the hovered link, the page URL and
    /// whether a navigation is in flight.
    pub fn address_display(&self, hovered: Option<&str>, current: Option<&str>, navigating: bool) -> (r:
        String)
        ensures
            r@ == address_display_spec(
                self.address_focused,
                self.address@,
                opt_view(hovered),
                opt_view(current),
                navigating,
            ),
    {
        let base = if self.address_focused {
            String::from_str(self.address.as_str())
        } else {
            match hovered {
                Some(l) => String::from_str(l),
                None => match current {
                    Some(u) => String::from_str(u),
                    None => String::new(),
                },
            }
        };
        if navigating && !self.address_focused {
            let mut r = String::from_str("\u{27f3} ");
            append_str(&mut r, base.as_str());
            r
        } else {
            base
        }
    }
}

/// Text of the bottom status bar: a loading message during a navigation, else the
/// hovered link when it is not empty; `None` when no status bar is drawn.
pub fn status_text(navigating: bool, hovered: Option<&str>) -> (r: Option<String>)
    ensures
        navigating ==> (r matches Some(t) && t@ == "Loading\u{2026}"@),
        !navigating ==> match hovered {
            Some(l) => if l@.len() > 0 {
                (r matches Some(t) && t@ == l@)
            } else {
                r is None
            },
            None => r is None,
        },
{
    if navigating {
        Some(String::from_str("Loading\u{2026}"))
    } else {
        match hovered {
            Some(l) => if l.unicode_len() > 0 {
                Some(String::from_str(l))
            } else {
                None
            },
            None => None,
        }
    }
}

/// Window title for a page title: `"aris"` when the title is blank, else the
/// title followed by `" — aris"`.
pub open spec fn window_title_spec(title: Seq<char>) -> Seq<char> {
    if trim(title).len() == 0 {
        "aris"@
    } else {
        title + " \u{2014} aris"@
    }
}

/// The window title shown for a page title.
pub fn window_title(title: &str) -> (r: String)
    ensures
        r@ == window_title_spec(title@),
{
    let v = chars_of(title);
    let (a, b) = trim_bounds(&v, 0, v.len());
    assert(v@.subrange(0, v@.len() as int) =~= title@);
    if a == b {
        String::from_str("aris")
    } else {
        let mut r = String::from_str(title);
        append_str(&mut r, " \u{2014} aris");
        r
    }
}


// ── Mouse cursor ────────────────────────────────────────────

/// The mouse cursor shape the window shows.
#[derive(Clone, Copy, Debug, PartialEq, Eq, Structural)]
pub enum CursorKind {
    Default,
    Text,
    Pointer,
    Wait,
    Crosshair,
    NotAllowed,
    Grab,
    Grabbing,
    Help,
    AllScroll,
}

/// The cursor for a page cursor given by its lowercase name.
pub open spec fn cursor_for_name(name: Seq<char>) -> CursorKind {
    if name == "pointer"@ {
        CursorKind::Pointer
    } else if name == "text"@ {
        CursorKind::Text
    } else if name == "wait"@ {
        CursorKind::Wait
    } else if name == "crosshair"@ {
        CursorKind::Crosshair
    } else if name == "notallowed"@ {
        CursorKind::NotAllowed
    } else if name == "grab"@ {
        CursorKind::Grab
    } else if name == "grabbing"@ {
        CursorKind::Grabbing
    } else if name == "help"@ {
        CursorKind::Help
    } else if name == "move"@ {
        CursorKind::AllScroll
    } else {
        CursorKind::Default
    }
}

/// The cursor over the window: a text cursor over the address field or over page
/// text, a pointer over the chrome's buttons, otherwise what the page asks for
/// (`page_cursor` is the name of the page's cursor, compared ignoring case).
pub open spec fn cursor_spec(
    over_chrome: bool,
    region: Option<ChromeRegion>,
    page_cursor: Option<Seq<char>>,
) -> CursorKind {
    let over_address = over_chrome && region == Some(ChromeRegion::Address);
    let over_text = match page_cursor {
        Some(n) => lowercase(n) == "text"@,
        None => false,
    };
    if over_address || (!over_chrome && over_text) {
        CursorKind::Text
    } else if over_chrome {
        match region {
            Some(ChromeRegion::Address) => CursorKind::Text,
            Some(_) => CursorKind::Pointer,
            None => CursorKind::Default,
        }
    } else {
        match page_cursor {
            Some(n) => cursor_for_name(lowercase(n)),
            None => CursorKind::Default,
        }
    }
}

/// The cursor for a page cursor name, compared ignoring case.
fn cursor_for_page(name: &str) -> (c: CursorKind)
    ensures
        c == cursor_for_name(lowercase(name@)),
{
    let l = to_lowercase_str(name);
    let n = l.as_str();
    if str_eq(n, "pointer") {
        CursorKind::Pointer
    } else if str_eq(n, "text") {
        CursorKind::Text
    } else if str_eq(n, "wait") {
        CursorKind::Wait
    } else if str_eq(n, "crosshair") {
        CursorKind::Crosshair
    } else if str_eq(n, "notallowed") {
        CursorKind::NotAllowed
    } else if str_eq(n, "grab") {
        CursorKind::Grab
    } else if str_eq(n, "grabbing") {
        CursorKind::Grabbing
    } else if str_eq(n, "help") {
        CursorKind::Help
    } else if str_eq(n, "move") {
        CursorKind::AllScroll
    } else {
        CursorKind::Default
    }
}

/// The cursor to show, given whether the mouse is over the chrome, the chrome
/// region under it, and the name of the page's cursor there.
pub fn cursor_for(over_chrome: bool, region: Option<ChromeRegion>, page_cursor: Option<&str>) -> (c:
    CursorKind)
    ensures
        c == cursor_spec(over_chrome, region, opt_view(page_cursor)),
{
    let over_address = over_chrome && match region {
        Some(ChromeRegion::Address) => true,
        _ => false,
    };
    let over_text = match page_cursor {
        Some(n) => {
            let l = to_lowercase_str(n);
            str_eq(l.as_str(), "text")
        },
        None => false,
    };
    if over_address || (!over_chrome && over_text) {
        CursorKind::Text
    } else if over_chrome {
        match region {
            Some(ChromeRegion::Address) => CursorKind::Text,
            Some(_) => CursorKind::Pointer,
            None => CursorKind::Default,
        }
    } else {
        match page_cursor {
            Some(n) => cursor_for_page(n),
            None => CursorKind::Default,
        }
    }
}


/// Typing a character into the focused address bar and then pressing Backspace
/// gives back the address that was there.
pub proof fn lemma_type_then_erase(
    s0: ChromeState,
    s1: ChromeState,
    s2: ChromeState,
    c: String,
    mods: Modifiers,
    r1: Option<ChromeAction>,
    r2: Option<ChromeAction>,
)
    requires
        c@.len() == 1,
        !(mods.control || mods.super_key),
        accepts_text(c@),
        edit_outcome(s0, s1, &KeyInput::Character(c), true, mods, r1),
        edit_outcome(s1, s2, &KeyInput::Backspace, true, mods, r2),
    ensures
        s2.address@ == s0.address@,
{
    assert((s0.address@ + c@).drop_last() =~= s0.address@);
}

/// The menu offers "Copy link address" exactly when a link is under the mouse and
/// "Copy page URL" exactly when the page has a URL, each enabled, whatever the
/// history; it always starts with Back, Forward, Reload and ends with Edit address.
pub proof fn lemma_menu_entries(can_back: bool, can_fwd: bool, has_link: bool, has_url: bool)
    ensures
        ({
            let s = context_menu_spec(can_back, can_fwd, has_link, has_url);
            &&& has_link ==> s.contains(("Copy link address"@, ContextMenuAction::CopyLink, true))
            &&& !has_link ==> forall|i: int| 0 <= i < s.len() ==> #[trigger] s[i].1 != ContextMenuAction::CopyLink
            &&& has_url ==> s.contains(("Copy page URL"@, ContextMenuAction::CopyUrl, true))
            &&& !has_url ==> forall|i: int| 0 <= i < s.len() ==> #[trigger] s[i].1 != ContextMenuAction::CopyUrl
            &&& s.len() == 4 + (if has_link { 1int } else { 0 }) + (if has_url { 1int } else { 0 })
            &&& s[0] == ("Back"@, ContextMenuAction::GoBack, can_back)
            &&& s[1] == ("Forward"@, ContextMenuAction::GoForward, can_fwd)
            &&& s[2] == ("Reload"@, ContextMenuAction::Reload, true)
            &&& s[s.len() - 1] == ("Edit address"@, ContextMenuAction::FocusAddress, true)
        }),
{
    let s = context_menu_spec(can_back, can_fwd, has_link, has_url);
    let back = ("Back"@, ContextMenuAction::GoBack, can_back);
    let fwd = ("Forward"@, ContextMenuAction::GoForward, can_fwd);
    let rel = ("Reload"@, ContextMenuAction::Reload, true);
    let link = ("Copy link address"@, ContextMenuAction::CopyLink, true);
    let url = ("Copy page URL"@, ContextMenuAction::CopyUrl, true);
    let edit = ("Edit address"@, ContextMenuAction::FocusAddress, true);
    if has_link && has_url {
        assert(s =~= seq![back, fwd, rel, link, url, edit]);
        assert(s[3] == link);
        assert(s[4] == url);
    } else if has_link {
        assert(s =~= seq![back, fwd, rel, link, edit]);
        assert(s[3] == link);
    } else if has_url {
        assert(s =~= seq![back, fwd, rel, url, edit]);
        assert(s[3] == url);
    } else {
        assert(s =~= seq![back, fwd, rel, edit]);
    }
}
} // verus!
