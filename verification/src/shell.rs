//! The browser window's state as a whole: the open tabs and the chrome, and the
//! tab commands that change both (the address bar follows the active tab).

use vstd::prelude::*;
use vstd::string::StringExecFns;

use crate::chrome::ChromeState;
use crate::favicon::Favicon;
use crate::find::FindState;
use crate::pages::{opt_view, start_page, start_page_spec, WindowLaunch};
use crate::tabs::{cycle_spec, Tabs};

verus! {

/// One open tab: its document and URL, the title shown in the strip, the rendered
/// page (XRGB), the find bar and the favicon; `extra` is what the window keeps
/// beside them (page zoom, engine state).
pub struct Tab<R, E> {
    pub html: String,
    pub url: Option<String>,
    pub title: String,
    pub base_xrgb: Vec<u32>,
    pub find: Option<FindState<R>>,
    pub favicon: Option<Favicon>,
    pub extra: E,
}

/// The text the address bar shows for a tab: its URL, or nothing.
pub open spec fn url_text<R, E>(t: Tab<R, E>) -> Seq<char> {
    match t.url {
        Some(u) => u@,
        None => Seq::<char>::empty(),
    }
}

/// A fresh tab: the start page, no URL, titled "New Tab", nothing rendered, no
/// find bar, no favicon.
pub open spec fn is_start_tab<R, E>(t: Tab<R, E>, extra: E) -> bool {
    &&& t.html@ == start_page_spec()
    &&& t.url is None
    &&& t.title@ == "New Tab"@
    &&& t.base_xrgb@.len() == 0
    &&& t.find is None
    &&& t.favicon is None
    &&& t.extra == extra
}

/// `b` is `a` with its find bar closed.
pub open spec fn find_closed<R, E>(a: Tab<R, E>, b: Tab<R, E>) -> bool {
    &&& b.html == a.html
    &&& b.url == a.url
    &&& b.title == a.title
    &&& b.base_xrgb == a.base_xrgb
    &&& b.favicon == a.favicon
    &&& b.extra == a.extra
    &&& b.find is None
}

/// `b` is `a` showing the favicon `fav`.
pub open spec fn favicon_set<R, E>(a: Tab<R, E>, b: Tab<R, E>, fav: Favicon) -> bool {
    &&& b.html == a.html
    &&& b.url == a.url
    &&& b.title == a.title
    &&& b.base_xrgb == a.base_xrgb
    &&& b.find == a.find
    &&& b.extra == a.extra
    &&& b.favicon == Some(fav)
}

/// The address bar shows `text`, unfocused; hover and caret phase as in `before`.
pub open spec fn chrome_shows(c: ChromeState, before: ChromeState, text: Seq<char>) -> bool {
    &&& c.address@ == text
    &&& !c.address_focused
    &&& c.hover == before.hover
    &&& c.caret_blink == before.caret_blink
}

/// The URL a window asks to load once it is up: its start URL when that is fetched
/// at once, else the last URL of the saved session when the session is restored.
pub open spec fn startup_navigation_spec(
    navigate_initial: bool,
    initial_url: Option<Seq<char>>,
    restore_session: bool,
    saved: Seq<Seq<char>>,
) -> Option<Seq<char>> {
    if navigate_initial && initial_url is Some {
        initial_url
    } else if restore_session && saved.len() > 0 {
        Some(saved.last())
    } else {
        None
    }
}

/// The URL to load when the window starts, given the saved session's URLs.
pub fn startup_navigation(plan: &WindowLaunch, saved: &Vec<String>) -> (r: Option<String>)
    ensures
        opt_string_view(r) == startup_navigation_spec(
            plan.navigate_initial,
            opt_string_view(plan.initial_url),
            plan.restore_session,
            saved@.map_values(|s: String| s@),
        ),
{
    if plan.navigate_initial {
        match &plan.initial_url {
            Some(u) => {
                return Some(String::from_str(u.as_str()));
            },
            None => {},
        }
    }
    if plan.restore_session && saved.len() > 0 {
        Some(String::from_str(saved[saved.len() - 1].as_str()))
    } else {
        None
    }
}

/// The view of an optional `String`.
pub open spec fn opt_string_view(o: Option<String>) -> Option<Seq<char>> {
    match o {
        Some(s) => Some(s@),
        None => None,
    }
}

/// The window's tabs and chrome.
pub struct Shell<R, E> {
    pub tabs: Tabs<Tab<R, E>>,
    pub chrome: ChromeState,
}

/// A fresh tab.
pub fn start_tab<R, E>(extra: E) -> (t: Tab<R, E>)
    ensures
        is_start_tab(t, extra),
{
    Tab {
        html: start_page(),
        url: None,
        title: String::from_str("New Tab"),
        base_xrgb: Vec::new(),
        find: None,
        favicon: None,
        extra,
    }
}

impl<R, E> Shell<R, E> {
    /// The tabs hold at least one tab and the active index names one.
    pub open spec fn wf(&self) -> bool {
        self.tabs.wf()
    }

    /// The active tab.
    pub open spec fn active_tab(&self) -> Tab<R, E> {
        self.tabs.items()[self.tabs.active_spec() as int]
    }

    /// A window started from `plan`: one tab holding the plan's document, URL and
    /// title, and an empty, unfocused address bar.
    pub fn launch(plan: &WindowLaunch, extra: E) -> (s: Self)
        ensures
            s.wf(),
            s.tabs.items().len() == 1,
            s.tabs.active_spec() == 0,
            s.active_tab().html@ == plan.initial_html@,
            opt_string_view(s.active_tab().url) == opt_string_view(plan.initial_url),
            s.active_tab().title@ == plan.tab_title@,
            s.active_tab().base_xrgb@.len() == 0,
            s.active_tab().find is None,
            s.active_tab().favicon is None,
            s.active_tab().extra == extra,
            s.chrome.address@ == Seq::<char>::empty(),
            !s.chrome.address_focused,
            s.chrome.hover is None,
            s.chrome.caret_blink,
    {
        let url = match &plan.initial_url {
            Some(u) => Some(String::from_str(u.as_str())),
            None => None,
        };
        let first = Tab {
            html: String::from_str(plan.initial_html.as_str()),
            url,
            title: String::from_str(plan.tab_title.as_str()),
            base_xrgb: Vec::new(),
            find: None,
            favicon: None,
            extra,
        };
        Shell { tabs: Tabs::new(first), chrome: ChromeState::new() }
    }

    /// Shows the active tab's URL in the address bar, unfocused.
    fn show_active_url(&mut self)
        requires
            old(self).wf(),
        ensures
            final(self).tabs == old(self).tabs,
            chrome_shows(final(self).chrome, old(self).chrome, url_text(old(self).active_tab())),
    {
        let text = match &self.tabs.active().url {
            Some(u) => String::from_str(u.as_str()),
            None => String::new(),
        };
        self.chrome.set_url(text.as_str());
        self.chrome.address_focused = false;
    }

    /// Opens a fresh tab after the others and makes it active; the address bar is
    /// cleared and unfocused.
    pub fn open_tab(&mut self, extra: E)
        requires
            old(self).wf(),
            old(self).tabs.items().len() < usize::MAX,
        ensures
            final(self).wf(),
            final(self).tabs.items().len() == old(self).tabs.items().len() + 1,
            final(self).tabs.items().subrange(0, old(self).tabs.items().len() as int) == old(
                self,
            ).tabs.items(),
            final(self).tabs.active_spec() == old(self).tabs.items().len(),
            is_start_tab(final(self).active_tab(), extra),
            chrome_shows(final(self).chrome, old(self).chrome, Seq::<char>::empty()),
    {
        self.tabs.push_and_activate(start_tab(extra));
        self.chrome.address = String::new();
        self.chrome.address_focused = false;
        proof {
            assert(self.tabs.items().subrange(0, old(self).tabs.items().len() as int) =~= old(
                self,
            ).tabs.items());
        }
    }

    /// Closes the active tab and shows the URL of the tab that becomes active;
    /// returns `false`, changing nothing, when it is the only tab (the window
    /// should then quit).
    pub fn close_tab(&mut self) -> (closed: bool)
        requires
            old(self).wf(),
        ensures
            final(self).wf(),
            closed == (old(self).tabs.items().len() > 1),
            !closed ==> final(self).tabs.items() == old(self).tabs.items()
                && final(self).tabs.active_spec() == old(self).tabs.active_spec()
                && final(self).chrome == old(self).chrome,
            closed ==> final(self).tabs.items() == old(self).tabs.items().remove(
                old(self).tabs.active_spec() as int,
            ),
            closed ==> final(self).tabs.active_spec() == if old(self).tabs.active_spec() < old(
                self,
            ).tabs.items().len() - 1 {
                old(self).tabs.active_spec()
            } else {
                (old(self).tabs.items().len() - 2) as nat
            },
            closed ==> chrome_shows(
                final(self).chrome,
                old(self).chrome,
                url_text(final(self).active_tab()),
            ),
    {
        if !self.tabs.close_active() {
            return false;
        }
        self.show_active_url();
        true
    }

    /// With two or more tabs, closes the find bar of the tab being left, activates
    /// the next (or previous) tab, wrapping around, and shows its URL; with one tab
    /// nothing changes.
    pub fn switch_tab(&mut self, forward: bool)
        requires
            old(self).wf(),
        ensures
            final(self).wf(),
            old(self).tabs.items().len() <= 1 ==> final(self).tabs.items() == old(
                self,
            ).tabs.items() && final(self).tabs.active_spec() == old(self).tabs.active_spec()
                && final(self).chrome == old(self).chrome,
            old(self).tabs.items().len() > 1 ==> final(self).tabs.active_spec() == cycle_spec(
                old(self).tabs.active_spec(),
                old(self).tabs.items().len(),
                forward,
            ),
            old(self).tabs.items().len() > 1 ==> final(self).tabs.items().len() == old(
                self,
            ).tabs.items().len(),
            old(self).tabs.items().len() > 1 ==> forall|k: int|
                0 <= k < old(self).tabs.items().len() && k != old(self).tabs.active_spec()
                    ==> #[trigger] final(self).tabs.items()[k] == old(self).tabs.items()[k],
            old(self).tabs.items().len() > 1 ==> find_closed(
                old(self).active_tab(),
                final(self).tabs.items()[old(self).tabs.active_spec() as int],
            ),
            old(self).tabs.items().len() > 1 ==> chrome_shows(
                final(self).chrome,
                old(self).chrome,
                url_text(final(self).active_tab()),
            ),
    {
        if self.tabs.len() <= 1 {
            return ;
        }
        let t = self.tabs.active_mut();
        t.find = None;
        self.tabs.switch(forward);
        self.show_active_url();
    }

    /// Gives the tab at `idx` the favicon fetched for it, when that tab still
    /// exists; says whether it did.
    pub fn attach_favicon(&mut self, idx: usize, fav: Favicon) -> (attached: bool)
        requires
            old(self).wf(),
        ensures
            final(self).wf(),
            attached == (idx < old(self).tabs.items().len()),
            final(self).tabs.active_spec() == old(self).tabs.active_spec(),
            final(self).chrome == old(self).chrome,
            !attached ==> final(self).tabs.items() == old(self).tabs.items(),
            attached ==> final(self).tabs.items().len() == old(self).tabs.items().len(),
            attached ==> forall|k: int|
                0 <= k < old(self).tabs.items().len() && k != idx ==> #[trigger] final(self).tabs.items()[k] == old(self).tabs.items()[k],
            attached ==> favicon_set(
                old(self).tabs.items()[idx as int],
                final(self).tabs.items()[idx as int],
                fav,
            ),
    {
        if idx >= self.tabs.len() {
            return false;
        }
        let t = self.tabs.get_mut(idx);
        t.favicon = Some(fav);
        true
    }

    /// Activates the tab at `idx` (a click in the tab strip) when it exists and is
    /// not already active, showing its URL; says whether anything changed.
    pub fn select_tab(&mut self, idx: usize) -> (changed: bool)
        requires
            old(self).wf(),
        ensures
            final(self).wf(),
            final(self).tabs.items() == old(self).tabs.items(),
            changed == (idx < old(self).tabs.items().len() && idx != old(self).tabs.active_spec()),
            !changed ==> final(self).tabs.active_spec() == old(self).tabs.active_spec()
                && final(self).chrome == old(self).chrome,
            changed ==> final(self).tabs.active_spec() == idx && chrome_shows(
                final(self).chrome,
                old(self).chrome,
                url_text(final(self).active_tab()),
            ),
    {
        if !self.tabs.select(idx) {
            return false;
        }
        self.show_active_url();
        true
    }
}

} // verus!
