//! Open tabs and which one is active; cycling through tabs and find matches.

use vstd::prelude::*;
use vstd::string::StringExecFns;
use vstd::string::StringSliceAdditionalSpecFns;
use vstd::utf8::{encode_utf8, is_char_boundary};

use crate::text::{append_str, lemma_encode_utf8_concat};

verus! {

/// The index after moving one step from `a` among `n` entries, wrapping around.
/// With no entries the index stays.
pub open spec fn cycle_spec(a: nat, n: nat, forward: bool) -> nat {
    if n == 0 {
        a
    } else if forward {
        (a + 1) % n
    } else if a == 0 {
        (n - 1) as nat
    } else {
        (a - 1) as nat
    }
}

/// One step forward or back among `n` entries, wrapping around.
pub fn cycle_index(a: usize, n: usize, forward: bool) -> (r: usize)
    requires
        n > 0 ==> a < n,
    ensures
        r == cycle_spec(a as nat, n as nat, forward),
        n > 0 ==> r < n,
{
    if n == 0 {
        a
    } else if forward {
        (a + 1) % n
    } else if a == 0 {
        n - 1
    } else {
        a - 1
    }
}

/// Moving forward then back (or back then forward) returns to the same entry.
pub proof fn lemma_cycle_round_trip(a: nat, n: nat)
    requires
        a < n,
    ensures
        cycle_spec(cycle_spec(a, n, true), n, false) == a,
        cycle_spec(cycle_spec(a, n, false), n, true) == a,
        cycle_spec(a, n, true) < n,
        cycle_spec(a, n, false) < n,
{
    vstd::arithmetic::div_mod::lemma_mod_self_0(n as int);
    if a + 1 < n {
        vstd::arithmetic::div_mod::lemma_small_mod((a + 1) as nat, n);
    }
    if a > 0 {
        vstd::arithmetic::div_mod::lemma_small_mod(a, n);
    }
}

/// Moving forward `n` times among `n` entries comes back to the start.
pub open spec fn cycle_times(a: nat, n: nat, k: nat) -> nat
    decreases k,
{
    if k == 0 {
        a
    } else {
        cycle_spec(cycle_times(a, n, (k - 1) as nat), n, true)
    }
}

proof fn lemma_cycle_times(a: nat, n: nat, k: nat)
    requires
        a < n,
    ensures
        cycle_times(a, n, k) == ((a + k) as int) % (n as int),
    decreases k,
{
    if k > 0 {
        lemma_cycle_times(a, n, (k - 1) as nat);
        let p = cycle_times(a, n, (k - 1) as nat);
        assert(p == ((a + k - 1) as int) % (n as int));
        vstd::arithmetic::div_mod::lemma_add_mod_noop(a + k - 1, 1, n as int);
        if n > 1 {
            vstd::arithmetic::div_mod::lemma_small_mod(1, n);
        } else {
            assert((p as int + 1) % 1 == 0);
            assert(((a + k) as int) % 1 == 0);
        }
    } else {
        vstd::arithmetic::div_mod::lemma_small_mod(a, n);
    }
}

/// Cycling forward through all `n` entries visits each once and returns to the start.
pub proof fn lemma_cycle_full_turn(a: nat, n: nat)
    requires
        a < n,
    ensures
        cycle_times(a, n, n) == a,
{
    lemma_cycle_times(a, n, n);
    vstd::arithmetic::div_mod::lemma_mod_add_multiples_vanish(a as int, n as int);
    vstd::arithmetic::div_mod::lemma_small_mod(a, n);
}

/// The open tabs, at least one, and the index of the active one.
pub struct Tabs<T> {
    tabs: Vec<T>,
    active: usize,
}

impl<T> Tabs<T> {
    /// The tabs, in strip order.
    pub closed spec fn items(&self) -> Seq<T> {
        self.tabs@
    }

    /// Index of the active tab.
    pub closed spec fn active_spec(&self) -> nat {
        self.active as nat
    }

    /// At least one tab, and the active index names one of them.
    pub open spec fn wf(&self) -> bool {
        self.items().len() > 0 && self.active_spec() < self.items().len()
    }

    /// A strip holding the single tab `first`, which is active.
    pub fn new(first: T) -> (r: Self)
        ensures
            r.wf(),
            r.items() == seq![first],
            r.active_spec() == 0,
    {
        let mut tabs = Vec::new();
        tabs.push(first);
        assert(tabs@ =~= seq![first]);
        Tabs { tabs, active: 0 }
    }

    /// Number of open tabs.
    pub fn len(&self) -> (n: usize)
        ensures
            n == self.items().len(),
    {
        self.tabs.len()
    }

    /// Index of the active tab.
    pub fn active_index(&self) -> (i: usize)
        ensures
            i == self.active_spec(),
    {
        self.active
    }

    /// The active tab.
    pub fn active(&self) -> (t: &T)
        requires
            self.wf(),
        ensures
            *t == self.items()[self.active_spec() as int],
    {
        &self.tabs[self.active]
    }

    /// The active tab, to change in place.
    pub fn active_mut(&mut self) -> (t: &mut T)
        requires
            old(self).wf(),
        ensures
            *t == old(self).items()[old(self).active_spec() as int],
            final(self).items() == old(self).items().update(old(self).active_spec() as int, *final(t)),
            final(self).active_spec() == old(self).active_spec(),
            final(self).wf(),
    {
        &mut self.tabs[self.active]
    }

    /// The tab at `i`, to change in place.
    pub fn get_mut(&mut self, i: usize) -> (t: &mut T)
        requires
            i < old(self).items().len(),
        ensures
            *t == old(self).items()[i as int],
            final(self).items() == old(self).items().update(i as int, *final(t)),
            final(self).active_spec() == old(self).active_spec(),
    {
        &mut self.tabs[i]
    }

    /// The tab at `i`.
    pub fn get(&self, i: usize) -> (t: &T)
        requires
            i < self.items().len(),
        ensures
            *t == self.items()[i as int],
    {
        &self.tabs[i]
    }

    /// Replaces the active tab's value, returning the previous one.
    pub fn replace_active(&mut self, t: T) -> (prev: T)
        requires
            old(self).wf(),
        ensures
            final(self).wf(),
            prev == old(self).items()[old(self).active_spec() as int],
            final(self).items() == old(self).items().update(old(self).active_spec() as int, t),
            final(self).active_spec() == old(self).active_spec(),
    {
        let mut v = t;
        std::mem::swap(&mut v, &mut self.tabs[self.active]);
        v
    }

    /// Opens `t` after the last tab and makes it active.
    pub fn push_and_activate(&mut self, t: T)
        requires
            old(self).wf(),
            old(self).items().len() < usize::MAX,
        ensures
            final(self).wf(),
            final(self).items() == old(self).items().push(t),
            final(self).active_spec() == old(self).items().len(),
    {
        self.tabs.push(t);
        self.active = self.tabs.len() - 1;
    }

    /// Closes the active tab; returns `false`, changing nothing, when it is the only one
    /// (the window should then quit). The tab that took its place becomes active, or the
    /// new last tab when the closed one was last.
    pub fn close_active(&mut self) -> (closed: bool)
        requires
            old(self).wf(),
        ensures
            final(self).wf(),
            closed == (old(self).items().len() > 1),
            !closed ==> final(self).items() == old(self).items() && final(self).active_spec()
                == old(self).active_spec(),
            closed ==> final(self).items() == old(self).items().remove(
                old(self).active_spec() as int,
            ),
            closed ==> final(self).active_spec() == if old(self).active_spec() < old(
                self,
            ).items().len() - 1 {
                old(self).active_spec()
            } else {
                (old(self).items().len() - 2) as nat
            },
    {
        if self.tabs.len() <= 1 {
            return false;
        }
        let _ = self.tabs.remove(self.active);
        if self.active >= self.tabs.len() {
            self.active = self.tabs.len() - 1;
        }
        true
    }

    /// Activates the next (or previous) tab, wrapping around.
    pub fn switch(&mut self, forward: bool)
        requires
            old(self).wf(),
        ensures
            final(self).wf(),
            final(self).items() == old(self).items(),
            final(self).active_spec() == cycle_spec(
                old(self).active_spec(),
                old(self).items().len(),
                forward,
            ),
    {
        let n = self.tabs.len();
        if n <= 1 {
            return ;
        }
        self.active = cycle_index(self.active, n, forward);
    }

    /// Activates the tab at `idx` when it exists and is not already active; says
    /// whether the active tab changed.
    pub fn select(&mut self, idx: usize) -> (changed: bool)
        requires
            old(self).wf(),
        ensures
            final(self).wf(),
            final(self).items() == old(self).items(),
            changed == (idx < old(self).items().len() && idx != old(self).active_spec()),
            final(self).active_spec() == if changed {
                idx as nat
            } else {
                old(self).active_spec()
            },
    {
        if idx < self.tabs.len() && idx != self.active {
            self.active = idx;
            true
        } else {
            false
        }
    }
}

/// Opening a tab and closing it again (it is then the active one) leaves the
/// tabs as they were.
pub proof fn lemma_open_then_close<T>(items: Seq<T>, t: T)
    ensures
        items.push(t).remove(items.len() as int) == items,
{
    assert(items.push(t).remove(items.len() as int) =~= items);
}

/// Closing a tab keeps every other tab, in order.
pub proof fn lemma_close_keeps_others<T>(items: Seq<T>, active: int, j: int)
    requires
        0 <= active < items.len(),
        0 <= j < items.len(),
        j != active,
    ensures
        items.remove(active)[if j < active {
            j
        } else {
            j - 1
        }] == items[j],
{
}

/// The label a tab shows in the strip: its title, else its URL, else "New Tab".
pub open spec fn tab_label_spec(title: Seq<char>, url: Option<Seq<char>>) -> Seq<char> {
    if title.len() > 0 {
        title
    } else {
        match url {
            Some(u) => u,
            None => "New Tab"@,
        }
    }
}

/// The label a tab shows in the strip.
pub fn tab_label(title: &str, url: Option<&str>) -> (r: String)
    ensures
        r@ == tab_label_spec(title@, match url {
            Some(u) => Some(u@),
            None => None,
        }),
{
    if !title.is_empty() {
        String::from_str(title)
    } else {
        match url {
            Some(u) => String::from_str(u),
            None => String::from_str("New Tab"),
        }
    }
}

/// The UTF-8 bytes of the title a tab shows: a title longer than 16 bytes is
/// cut to its first 14 bytes and ends with `…`.
pub open spec fn tab_title_bytes(t: Seq<u8>) -> Seq<u8> {
    if t.len() > 16 {
        t.subrange(0, 14) + encode_utf8("\u{2026}"@)
    } else {
        t
    }
}

/// The title a tab shows in the strip, cut to fit. The cut must fall on a
/// character boundary.
pub fn tab_title(title: &str) -> (r: String)
    requires
        title.spec_bytes().len() > 16 ==> is_char_boundary(title.spec_bytes(), 14),
    ensures
        encode_utf8(r@) == tab_title_bytes(title.spec_bytes()),
{
    if title.as_bytes().len() > 16 {
        let (head, _tail) = title.split_at(14);
        let mut r = String::from_str(head);
        append_str(&mut r, "\u{2026}");
        proof {
            lemma_encode_utf8_concat(head@, "\u{2026}"@);
        }
        r
    } else {
        String::from_str(title)
    }
}

} // verus!
