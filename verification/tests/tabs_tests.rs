use aris_render::tabs::{cycle_index, tab_label, tab_title, Tabs};

#[test]
fn cycle_wraps_both_ways() {
    assert_eq!(cycle_index(0, 3, true), 1);
    assert_eq!(cycle_index(2, 3, true), 0);
    assert_eq!(cycle_index(0, 3, false), 2);
    assert_eq!(cycle_index(2, 3, false), 1);
    assert_eq!(cycle_index(0, 1, true), 0);
    assert_eq!(cycle_index(0, 1, false), 0);
    assert_eq!(cycle_index(7, 0, true), 7);
}

#[test]
fn cycle_forward_then_back_returns() {
    for n in 1..6usize {
        for a in 0..n {
            assert_eq!(cycle_index(cycle_index(a, n, true), n, false), a);
            assert_eq!(cycle_index(cycle_index(a, n, false), n, true), a);
        }
    }
}

#[test]
fn cycle_full_turn_returns() {
    for n in 1..6usize {
        for a in 0..n {
            let mut i = a;
            for _ in 0..n {
                i = cycle_index(i, n, true);
            }
            assert_eq!(i, a);
        }
    }
}

fn items(t: &Tabs<&'static str>) -> Vec<&'static str> {
    (0..t.len()).map(|i| *t.get(i)).collect()
}

#[test]
fn new_strip_has_one_active_tab() {
    let t = Tabs::new("a");
    assert_eq!(t.len(), 1);
    assert_eq!(t.active_index(), 0);
    assert_eq!(*t.active(), "a");
}

#[test]
fn pushed_tab_becomes_active() {
    let mut t = Tabs::new("a");
    t.push_and_activate("b");
    t.push_and_activate("c");
    assert_eq!(items(&t), vec!["a", "b", "c"]);
    assert_eq!(t.active_index(), 2);
    assert_eq!(*t.active(), "c");
}

#[test]
fn closing_the_last_remaining_tab_is_refused() {
    let mut t = Tabs::new("a");
    assert!(!t.close_active());
    assert_eq!(items(&t), vec!["a"]);
    assert_eq!(t.active_index(), 0);
}

#[test]
fn closing_keeps_the_others_in_order() {
    let mut t = Tabs::new("a");
    t.push_and_activate("b");
    t.push_and_activate("c");
    t.push_and_activate("d");
    assert!(t.select(1));
    assert!(t.close_active());
    assert_eq!(items(&t), vec!["a", "c", "d"]);
    assert_eq!(t.active_index(), 1);
    assert_eq!(*t.active(), "c");
}

#[test]
fn closing_the_last_tab_activates_the_new_last() {
    let mut t = Tabs::new("a");
    t.push_and_activate("b");
    t.push_and_activate("c");
    assert!(t.close_active());
    assert_eq!(items(&t), vec!["a", "b"]);
    assert_eq!(t.active_index(), 1);
}

#[test]
fn switching_wraps() {
    let mut t = Tabs::new("a");
    t.push_and_activate("b");
    t.push_and_activate("c");
    t.switch(true);
    assert_eq!(t.active_index(), 0);
    t.switch(false);
    assert_eq!(t.active_index(), 2);
    t.switch(false);
    assert_eq!(t.active_index(), 1);
    let mut one = Tabs::new("x");
    one.switch(true);
    assert_eq!(one.active_index(), 0);
}

#[test]
fn select_reports_change() {
    let mut t = Tabs::new("a");
    t.push_and_activate("b");
    assert!(!t.select(1));
    assert!(!t.select(5));
    assert_eq!(t.active_index(), 1);
    assert!(t.select(0));
    assert_eq!(t.active_index(), 0);
}

#[test]
fn replace_active_returns_previous() {
    let mut t = Tabs::new("a");
    t.push_and_activate("b");
    assert_eq!(t.replace_active("B"), "b");
    assert_eq!(items(&t), vec!["a", "B"]);
}

#[test]
fn tab_labels() {
    assert_eq!(tab_label("Title", Some("https://x/")), "Title");
    assert_eq!(tab_label("", Some("https://x/")), "https://x/");
    assert_eq!(tab_label("", None), "New Tab");
}

#[test]
fn tab_titles_are_cut_after_14_bytes() {
    assert_eq!(tab_title("short"), "short");
    assert_eq!(tab_title("exactly16bytes!!"), "exactly16bytes!!");
    assert_eq!(tab_title("seventeen bytes!!"), "seventeen byte\u{2026}");
    assert_eq!(tab_title("caf\u{e9} au lait, s'il vous pla\u{ee}t"), "caf\u{e9} au lait,\u{2026}");
}

#[test]
fn active_tab_changed_in_place() {
    let mut t = Tabs::new(String::from("a"));
    t.push_and_activate(String::from("b"));
    t.active_mut().push('!');
    assert_eq!(t.get(0), "a");
    assert_eq!(t.active(), "b!");
    assert_eq!(t.active_index(), 1);
}

#[test]
fn opening_then_closing_a_tab_restores_the_strip() {
    let mut t = Tabs::new("a");
    t.push_and_activate("b");
    assert!(t.select(0));
    t.push_and_activate("c");
    assert!(t.close_active());
    assert_eq!(items(&t), vec!["a", "b"]);
}
