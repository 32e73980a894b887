use aris_render::find::{count_matches_exec, find_count, push_decimal, FindState};

fn chars(s: &str) -> Vec<char> {
    s.chars().collect()
}

#[test]
fn counts_non_overlapping_matches() {
    assert_eq!(count_matches_exec(&chars("aaaa"), &chars("aa")), 2);
    assert_eq!(count_matches_exec(&chars("aaa"), &chars("aa")), 1);
    assert_eq!(count_matches_exec(&chars("abcabc"), &chars("bc")), 2);
    assert_eq!(count_matches_exec(&chars("abc"), &chars("x")), 0);
    assert_eq!(count_matches_exec(&chars("ab"), &chars("abc")), 0);
    assert_eq!(count_matches_exec(&chars("abc"), &chars("")), 4);
    assert_eq!(count_matches_exec(&chars(""), &chars("")), 1);
}

#[test]
fn count_agrees_with_str_matches() {
    for (h, n) in [("banana", "ana"), ("aaaaa", "aaa"), ("x y x y", "x"), ("caf\u{e9}", "\u{e9}")] {
        assert_eq!(count_matches_exec(&chars(h), &chars(n)), h.matches(n).count());
    }
}

#[test]
fn find_count_ignores_case() {
    assert_eq!(find_count("Hello hello HELLO", "hello"), Some(3));
    assert_eq!(find_count("Straße", "STRASSE"), Some(0));
    assert_eq!(find_count("abc", ""), Some(0));
    assert_eq!(find_count("", "a"), Some(0));
}

#[test]
fn decimals() {
    for n in [0usize, 7, 10, 42, 1000, 987654321, usize::MAX] {
        let mut s = String::from("#");
        push_decimal(&mut s, n);
        assert_eq!(s, format!("#{}", n));
    }
}

#[test]
fn find_bar_label() {
    let mut f: FindState<u8> = FindState::open();
    assert_eq!(f.label(), "Find:");
    f.set_query("cat", vec![1, 2, 3]);
    assert_eq!(f.label(), "Find: cat (1/3)");
    f.next(true);
    assert_eq!(f.label(), "Find: cat (2/3)");
    f.set_query("dog", vec![]);
    assert_eq!(f.label(), "Find: dog (1/0)");
}

#[test]
fn find_next_wraps_and_ignores_empty() {
    let mut f: FindState<u8> = FindState::open();
    f.next(true);
    assert_eq!(f.active, 0);
    f.set_query("q", vec![10, 20, 30]);
    f.next(false);
    assert_eq!(f.active, 2);
    f.next(true);
    assert_eq!(f.active, 0);
    f.next(true);
    f.next(true);
    assert_eq!(f.active, 2);
    assert_eq!(f.matches, vec![10, 20, 30]);
    assert_eq!(f.query, "q");
}

#[test]
fn new_query_resets_current_match() {
    let mut f: FindState<u8> = FindState::open();
    f.set_query("a", vec![1, 2]);
    f.next(true);
    f.caret_blink = false;
    f.set_query("ab", vec![1]);
    assert_eq!(f.active, 0);
    assert!(f.caret_blink);
    assert_eq!(f.matches, vec![1]);
}
