//! Find-in-page: counting occurrences of the query, the find bar's state and
//! its label.

use vstd::prelude::*;
use vstd::string::StrSliceExecFns;
use vstd::string::StringExecFns;

use crate::tabs::{cycle_index, cycle_spec};
use crate::text::{append_str, chars_of, lowercase, occurs_at, occurs_at_exec, push_char, to_lowercase_str};

verus! {

/// Non-overlapping occurrences of a non-empty `needle` in `hay[i..]`, taken
/// left to right: each match resumes the scan just past itself.
pub open spec fn matches_from(hay: Seq<char>, needle: Seq<char>, i: int) -> nat
    decreases hay.len() - i,
{
    if needle.len() == 0 || i < 0 || i + needle.len() > hay.len() {
        0
    } else if occurs_at(hay, needle, i) {
        1 + matches_from(hay, needle, i + needle.len())
    } else {
        matches_from(hay, needle, i + 1)
    }
}

/// `hay.matches(needle).count()`: an empty pattern matches at each of the
/// `hay.len() + 1` character boundaries.
pub open spec fn count_matches(hay: Seq<char>, needle: Seq<char>) -> nat {
    if needle.len() == 0 {
        hay.len() + 1
    } else {
        matches_from(hay, needle, 0)
    }
}

/// Number of non-overlapping occurrences of `needle` in `hay`.
pub fn count_matches_exec(hay: &Vec<char>, needle: &Vec<char>) -> (n: usize)
    requires
        hay@.len() < usize::MAX,
    ensures
        n == count_matches(hay@, needle@),
{
    let hl = hay.len();
    let nl = needle.len();
    if nl == 0 {
        return hl + 1;
    }
    if nl > hl {
        return 0;
    }
    let mut i: usize = 0;
    let mut count: usize = 0;
    while i <= hl - nl
        invariant
            0 < nl <= hl,
            hl == hay@.len(),
            nl == needle@.len(),
            i <= hl,
            count <= i,
            count + matches_from(hay@, needle@, i as int) == matches_from(hay@, needle@, 0),
        decreases hl - i,
    {
        if occurs_at_exec(hay, needle, i) {
            count = count + 1;
            i = i + nl;
        } else {
            i = i + 1;
        }
    }
    count
}

/// How many highlights the find bar gives a text node holding `content` for
/// `query`: occurrences of the lowercased query in the lowercased text, none
/// for an empty query.
pub open spec fn find_count_spec(content: Seq<char>, query: Seq<char>) -> nat {
    if query.len() == 0 {
        0
    } else {
        count_matches(lowercase(content), lowercase(query))
    }
}

/// Case-insensitive occurrence count of `query` in `content` (none for an empty
/// query).
pub fn find_count(content: &str, query: &str) -> (r: Option<usize>)
    ensures
        match r {
            Some(n) => n == find_count_spec(content@, query@) && (query@.len() > 0 ==> n
                == count_matches(lowercase(content@), lowercase(query@))),
            None => lowercase(content@).len() == usize::MAX,
        },
{
    if query.unicode_len() == 0 {
        return Some(0);
    }
    let needle = chars_of(&to_lowercase_str(query));
    let hay = chars_of(&to_lowercase_str(content));
    if hay.len() == usize::MAX {
        return None;
    }
    Some(count_matches_exec(&hay, &needle))
}

// ── Decimal numerals ────────────────────────────────────────

/// The decimal digit `d`, `0 <= d < 10`.
pub open spec fn digit_char(d: nat) -> char {
    (48 + d) as char
}

/// `n` written in decimal, without leading zeros (`usize`'s `Display`).
pub open spec fn decimal(n: nat) -> Seq<char>
    decreases n,
{
    if n < 10 {
        seq![digit_char(n)]
    } else {
        decimal(n / 10).push(digit_char(n % 10))
    }
}

fn digit_char_exec(d: usize) -> (c: char)
    requires
        d < 10,
    ensures
        c == digit_char(d as nat),
{
    let b: u8 = 48 + d as u8;
    b as char
}

/// Appends `n` in decimal to `s`.
pub fn push_decimal(s: &mut String, n: usize)
    ensures
        final(s)@ == old(s)@ + decimal(n as nat),
    decreases n,
{
    if n >= 10 {
        push_decimal(s, n / 10);
    }
    push_char(s, digit_char_exec(n % 10));
    assert(final(s)@ =~= old(s)@ + decimal(n as nat));
}

// ── Find bar state ──────────────────────────────────────────

/// The find bar of a tab: the query, the matches found for it, and which one is
/// current.
pub struct FindState<R> {
    pub query: String,
    pub active: usize,
    pub matches: Vec<R>,
    pub caret_blink: bool,
}

/// The label the find bar shows.
pub open spec fn find_label_spec(query: Seq<char>, active: nat, n: nat) -> Seq<char> {
    if query.len() == 0 {
        "Find:"@
    } else {
        "Find: "@ + query + " ("@ + decimal(active + 1) + "/"@ + decimal(n) + ")"@
    }
}

impl<R> FindState<R> {
    /// The current match is one of the matches, or the first slot when there
    /// are none.
    pub open spec fn wf(&self) -> bool {
        self.active == 0 || self.active < self.matches@.len()
    }

    /// A find bar just opened: empty query, no matches.
    pub fn open() -> (f: Self)
        ensures
            f.wf(),
            f.query@ == Seq::<char>::empty(),
            f.active == 0,
            f.matches@ == Seq::<R>::empty(),
            f.caret_blink,
    {
        FindState { query: String::new(), active: 0, matches: Vec::new(), caret_blink: true }
    }

    /// A new query with its matches: the first match becomes current.
    pub fn set_query(&mut self, q: &str, matches: Vec<R>)
        ensures
            final(self).wf(),
            final(self).query@ == q@,
            final(self).active == 0,
            final(self).matches@ == matches@,
            final(self).caret_blink,
    {
        self.query = String::from_str(q);
        self.active = 0;
        self.caret_blink = true;
        self.matches = matches;
    }

    /// Moves to the next (or previous) match, wrapping around; nothing happens
    /// without matches.
    pub fn next(&mut self, forward: bool)
        requires
            old(self).wf(),
        ensures
            final(self).wf(),
            final(self).query == old(self).query,
            final(self).matches == old(self).matches,
            final(self).caret_blink == old(self).caret_blink,
            old(self).matches@.len() == 0 ==> final(self).active == old(self).active,
            old(self).matches@.len() > 0 ==> final(self).active == cycle_spec(
                old(self).active as nat,
                old(self).matches@.len(),
                forward,
            ),
    {
        let n = self.matches.len();
        if n == 0 {
            return;
        }
        self.active = cycle_index(self.active, n, forward);
    }

    /// `"Find:"`, or `"Find: <query> (<current>/<count>)"` once there is a query.
    pub fn label(&self) -> (s: String)
        requires
            self.wf(),
        ensures
            s@ == find_label_spec(self.query@, self.active as nat, self.matches@.len()),
    {
        if self.query.unicode_len() == 0 {
            return String::from_str("Find:");
        }
        let n = self.matches.len();
        let mut s = String::from_str("Find: ");
        append_str(&mut s, self.query.as_str());
        append_str(&mut s, " (");
        push_decimal(&mut s, self.active + 1);
        append_str(&mut s, "/");
        push_decimal(&mut s, n);
        append_str(&mut s, ")");
        s
    }
}

/// The needle counted is the lowercased query, matched in the lowercased text.
pub proof fn lemma_find_needle_is_lowercased(content: Seq<char>, query: Seq<char>)
    requires
        query.len() > 0,
    ensures
        find_count_spec(content, query) == count_matches(lowercase(content), lowercase(query)),
{
}

/// Case does not matter: two queries with the same lowercase form, searched in two
/// texts with the same lowercase form, give the same count.
pub proof fn lemma_find_ignores_case(c1: Seq<char>, c2: Seq<char>, q1: Seq<char>, q2: Seq<char>)
    requires
        q1.len() > 0,
        q2.len() > 0,
        lowercase(q1) == lowercase(q2),
        lowercase(c1) == lowercase(c2),
    ensures
        find_count_spec(c1, q1) == find_count_spec(c2, q2),
{
}

/// An empty query finds nothing, in any text.
pub proof fn lemma_find_empty_query(content: Seq<char>)
    ensures
        find_count_spec(content, Seq::<char>::empty()) == 0,
{
}
} // verus!
