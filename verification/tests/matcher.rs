use mini_grep::matcher::{contains, fold, starts_at, Matcher};

fn chars(s: &str) -> Vec<char> {
    s.chars().collect()
}

#[test]
fn pattern_at_each_place() {
    let line = chars("abcabc");
    assert!(contains(&line, &chars("abc")));
    assert!(contains(&line, &chars("bca")));
    assert!(contains(&line, &chars("cabc")));
    assert!(contains(&line, &chars("abcabc")));
    assert!(contains(&line, &chars("c")));
}

#[test]
fn pattern_that_is_absent() {
    let line = chars("abcabc");
    assert!(!contains(&line, &chars("cb")));
    assert!(!contains(&line, &chars("abcabca")));
    assert!(!contains(&line, &chars("d")));
    assert!(!contains(&chars(""), &chars("a")));
}

#[test]
fn empty_pattern_is_everywhere() {
    assert!(contains(&chars("abc"), &chars("")));
    assert!(contains(&chars(""), &chars("")));
    assert!(starts_at(&chars(""), &chars("abc"), 0));
    assert!(starts_at(&chars(""), &chars("abc"), 3));
    assert!(!starts_at(&chars(""), &chars("abc"), 4));
}

#[test]
fn pattern_at_a_given_place() {
    let line = chars("abcabc");
    assert!(starts_at(&chars("bc"), &line, 1));
    assert!(starts_at(&chars("bc"), &line, 4));
    assert!(!starts_at(&chars("bc"), &line, 0));
    assert!(!starts_at(&chars("bc"), &line, 5));
    assert!(!starts_at(&chars("bc"), &line, 6));
    assert!(!starts_at(&chars("bc"), &line, usize::MAX));
}

#[test]
fn fold_keeps_or_lowers() {
    assert_eq!(fold("RuSt \u{c9}", true), chars("RuSt \u{c9}"));
    assert_eq!(fold("RuSt \u{c9}", false), chars("rust \u{e9}"));
    assert_eq!(fold("", false), chars(""));
}

#[test]
fn fold_may_change_the_length() {
    assert_eq!(fold("\u{130}", false), chars("i\u{307}"));
}

#[test]
fn matcher_with_case() {
    let matcher = Matcher::new("Rust", true);
    assert!(matcher.case_sensitive);
    assert_eq!(matcher.needle, chars("Rust"));
    assert!(matcher.matches("Rust:"));
    assert!(!matcher.matches("Trust me."));
    assert!(!matcher.matches(""));
}

#[test]
fn matcher_without_case() {
    let matcher = Matcher::new("rUsT", false);
    assert!(!matcher.case_sensitive);
    assert_eq!(matcher.needle, chars("rust"));
    assert!(matcher.matches("Rust:"));
    assert!(matcher.matches("Trust me."));
    assert!(matcher.matches("TRUST"));
    assert!(!matcher.matches("safe, fast, productive"));
}

#[test]
fn matcher_keeps_nothing_between_lines() {
    let matcher = Matcher::new("a", false);
    assert!(matcher.matches("A"));
    assert!(!matcher.matches("b"));
    assert!(matcher.matches("A"));
    assert!(!matcher.matches("b"));
}
